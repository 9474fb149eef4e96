//! What the transforms collect: results of single nodes, and the context of the
//! block that they belong to.

use crate::ast::{
    expr_values, group_values, no_span, nowhere, stmt_values, Expr, ExprV, JsxElement, Memo, Number,
    NumberV, Pattern, PatternV, Span, StaticTextValue, Stmt, StmtV,
};
use crate::make::{copied, ident, ident_v};
use crate::outside::{
    aliases_of, constants_of, counts_of, get_alias, get_constant, get_count, insert_text,
    insert_triple, new_aliases, new_constants, new_counts, new_texts, new_triples, ordered_texts,
    ordered_triples, same, set_alias, set_constant, set_count, share, texts_in_order,
    triples_in_order, with_item,
};
use crate::text::{
    decimal, decimal_injective, decimal_nonempty, decimal_text, joined, starts_with, texts,
};
use indexmap::IndexSet;
use rustc_hash::{FxBuildHasher, FxHashMap};
use std::rc::Rc;
use vstd::prelude::*;

verus! {

broadcast use group_values;

/// How a result is put out.
#[derive(Default, Clone, Copy, Debug, PartialEq, Eq, Structural)]
pub enum OutputKind {
    #[default]
    Dom,
    Universal,
}

/// Which of the runtime modules a helper comes from.
#[derive(Clone, Copy, Debug, PartialEq, Eq, Structural)]
pub enum HelperSource {
    Base,
    Dom,
    Universal,
}

/// One imported helper.
#[derive(Clone, Debug, Hash, PartialEq, Eq)]
pub struct HelperImport {
    pub imported: String,
    pub local: String,
    pub module: String,
}

/// The value of a `HelperImport`: imported name, local name, module.
pub type ImportV = (Seq<char>, Seq<char>, Seq<char>);

impl View for HelperImport {
    type V = ImportV;

    open spec fn view(&self) -> ImportV {
        (self.imported@, self.local@, self.module@)
    }
}

/// A variable declaration.
#[derive(Debug)]
pub struct Declaration {
    pub pattern: Pattern,
    pub init: Rc<Expr>,
}

pub ghost struct DeclarationV {
    pub pattern: PatternV,
    pub init: ExprV,
}

impl View for Declaration {
    type V = DeclarationV;

    open spec fn view(&self) -> DeclarationV {
        DeclarationV { pattern: self.pattern@, init: self.init@ }
    }
}

/// An attribute of an element that an effect keeps up to date.
#[derive(Debug)]
pub struct DynamicBinding {
    pub elem: String,
    pub key: String,
    pub value: Rc<Expr>,
    pub is_svg: bool,
    pub is_ce: bool,
    pub tag_name: String,
}

pub ghost struct BindingV {
    pub elem: Seq<char>,
    pub key: Seq<char>,
    pub value: ExprV,
    pub is_svg: bool,
    pub is_ce: bool,
    pub tag_name: Seq<char>,
}

impl View for DynamicBinding {
    type V = BindingV;

    open spec fn view(&self) -> BindingV {
        BindingV {
            elem: self.elem@,
            key: self.key@,
            value: self.value@,
            is_svg: self.is_svg,
            is_ce: self.is_ce,
            tag_name: self.tag_name@,
        }
    }
}

/// The result of transforming a JSX node.
#[derive(Debug)]
pub struct TransformResult {
    pub span: Span,
    /// The HTML template.
    pub template: String,
    /// The template with all closing tags.
    pub template_with_closing_tags: String,
    pub declarations: Vec<Declaration>,
    /// Expressions to run: effects, inserts.
    pub exprs: Vec<Rc<Expr>>,
    /// Statements to run behind the declarations and before the expressions.
    pub statements: Vec<Stmt>,
    pub dynamics: Vec<DynamicBinding>,
    /// Expressions to run last.
    pub post_exprs: Vec<Rc<Expr>>,
    pub is_svg: bool,
    /// The template needs an SVG wrapper.
    pub template_is_svg: bool,
    pub has_custom_element: bool,
    /// The template is cloned with `importNode`.
    pub is_import_node: bool,
    pub has_hydratable_event: bool,
    pub tag_name: Option<String>,
    pub output_kind: OutputKind,
    pub skip_template: bool,
    /// The variable that holds the element.
    pub id: Option<String>,
    /// The result is text only.
    pub text: bool,
    /// The result is to be wrapped in a memo.
    pub needs_memo: bool,
    /// The results of the children, where they go into an array.
    pub child_results: Vec<TransformResult>,
    /// The finished expression of a result of the universal renderer.
    pub universal_output: Option<Rc<Expr>>,
}

/// The value of a `TransformResult`.
pub ghost struct ResultV {
    pub span: Span,
    pub template: Seq<char>,
    pub closed: Seq<char>,
    pub declarations: Seq<DeclarationV>,
    pub exprs: Seq<ExprV>,
    pub statements: Seq<StmtV>,
    pub dynamics: Seq<BindingV>,
    pub post_exprs: Seq<ExprV>,
    pub is_svg: bool,
    pub template_is_svg: bool,
    pub has_custom_element: bool,
    pub is_import_node: bool,
    pub has_hydratable_event: bool,
    pub tag_name: Option<Seq<char>>,
    pub output_kind: OutputKind,
    pub skip_template: bool,
    pub id: Option<Seq<char>>,
    pub text: bool,
    pub needs_memo: bool,
    pub child_results: Seq<ResultV>,
    pub universal_output: Option<ExprV>,
}

pub open spec fn declaration_values(items: Seq<Declaration>) -> Seq<DeclarationV> {
    items.map_values(|d: Declaration| d@)
}

pub open spec fn binding_values(items: Seq<DynamicBinding>) -> Seq<BindingV> {
    items.map_values(|b: DynamicBinding| b@)
}

/// The text of an optional string.
pub open spec fn opt(text: Option<String>) -> Option<Seq<char>> {
    match text {
        None => None,
        Some(text) => Some(text@),
    }
}

#[verifier::opaque]
pub open spec fn result_value(r: TransformResult) -> ResultV
    decreases r,
{
    ResultV {
        span: r.span,
        template: r.template@,
        closed: r.template_with_closing_tags@,
        declarations: declaration_values(r.declarations@),
        exprs: expr_values(r.exprs@),
        statements: stmt_values(r.statements@),
        dynamics: binding_values(r.dynamics@),
        post_exprs: expr_values(r.post_exprs@),
        is_svg: r.is_svg,
        template_is_svg: r.template_is_svg,
        has_custom_element: r.has_custom_element,
        is_import_node: r.is_import_node,
        has_hydratable_event: r.has_hydratable_event,
        tag_name: opt(r.tag_name),
        output_kind: r.output_kind,
        skip_template: r.skip_template,
        id: opt(r.id),
        text: r.text,
        needs_memo: r.needs_memo,
        child_results: result_values(r.child_results@),
        universal_output: match r.universal_output {
            None => None,
            Some(expr) => Some(expr@),
        },
    }
}

pub open spec fn result_values(items: Seq<TransformResult>) -> Seq<ResultV>
    decreases items,
{
    Seq::new(
        items.len(),
        |i: int|
            if 0 <= i < items.len() {
                result_value(items[i])
            } else {
                arbitrary()
            },
    )
}

impl View for TransformResult {
    type V = ResultV;

    open spec fn view(&self) -> ResultV {
        result_value(*self)
    }
}

/// A result that holds nothing.
pub open spec fn empty_result() -> ResultV {
    ResultV {
        span: no_span(),
        template: seq![],
        closed: seq![],
        declarations: seq![],
        exprs: seq![],
        statements: seq![],
        dynamics: seq![],
        post_exprs: seq![],
        is_svg: false,
        template_is_svg: false,
        has_custom_element: false,
        is_import_node: false,
        has_hydratable_event: false,
        tag_name: None,
        output_kind: OutputKind::Dom,
        skip_template: false,
        id: None,
        text: false,
        needs_memo: false,
        child_results: seq![],
        universal_output: None,
    }
}

impl Default for TransformResult {
    fn default() -> (result: TransformResult)
        ensures
            result@ == empty_result(),
    {
        let result = TransformResult {
            span: nowhere(),
            template: String::new(),
            template_with_closing_tags: String::new(),
            declarations: Vec::new(),
            exprs: Vec::new(),
            statements: Vec::new(),
            dynamics: Vec::new(),
            post_exprs: Vec::new(),
            is_svg: false,
            template_is_svg: false,
            has_custom_element: false,
            is_import_node: false,
            has_hydratable_event: false,
            tag_name: None,
            output_kind: OutputKind::Dom,
            skip_template: false,
            id: None,
            text: false,
            needs_memo: false,
            child_results: Vec::new(),
            universal_output: None,
        };
        proof {
            reveal(result_value);
            assert(declaration_values(result.declarations@) =~= seq![]);
            assert(binding_values(result.dynamics@) =~= seq![]);
            assert(result_values(result.child_results@) =~= seq![]);
            assert(result.template@ =~= seq![]);
            assert(result.template_with_closing_tags@ =~= seq![]);
        }
        result
    }
}

impl ResultV {
    /// With more text in the template and in the closed template.
    pub open spec fn with_both(self, text: Seq<char>) -> ResultV {
        ResultV { template: self.template + text, closed: self.closed + text, ..self }
    }

    /// With more text in the template alone.
    pub open spec fn with_template(self, text: Seq<char>) -> ResultV {
        ResultV { template: self.template + text, ..self }
    }

    pub open spec fn with_expr(self, expr: ExprV) -> ResultV {
        ResultV { exprs: self.exprs.push(expr), ..self }
    }

    pub open spec fn with_post_expr(self, expr: ExprV) -> ResultV {
        ResultV { post_exprs: self.post_exprs.push(expr), ..self }
    }

    pub open spec fn with_stmt(self, stmt: StmtV) -> ResultV {
        ResultV { statements: self.statements.push(stmt), ..self }
    }

    pub open spec fn with_binding(self, binding: BindingV) -> ResultV {
        ResultV { dynamics: self.dynamics.push(binding), ..self }
    }

    pub open spec fn with_declaration(self, pattern: PatternV, init: ExprV) -> ResultV {
        ResultV { declarations: self.declarations.push(DeclarationV { pattern, init }), ..self }
    }

    /// The tag name, or nothing.
    pub open spec fn tag(self) -> Seq<char> {
        match self.tag_name {
            None => seq![],
            Some(tag) => tag,
        }
    }

    /// The binding of `key` on `elem` to `value`.
    pub open spec fn binding(self, elem: Seq<char>, key: Seq<char>, value: ExprV) -> BindingV {
        BindingV {
            elem,
            key,
            value,
            is_svg: self.is_svg,
            is_ce: self.has_custom_element,
            tag_name: self.tag(),
        }
    }
}

/// A copy of an optional string.
pub fn copied_option(text: &Option<String>) -> (copy: Option<String>)
    ensures
        opt(copy) == opt(*text),
{
    match text {
        None => None,
        Some(text) => Some(text.clone()),
    }
}

impl TransformResult {
    pub fn uses_universal_output(&self) -> (yes: bool)
        ensures
            yes == (self@.output_kind == OutputKind::Universal),
    {
        proof {
            reveal(result_value);
        }
        match self.output_kind {
            OutputKind::Universal => true,
            OutputKind::Dom => false,
        }
    }

    pub fn push_both(&mut self, text: &str)
        ensures
            final(self)@ == old(self)@.with_both(text@),
    {
        proof {
            reveal(result_value);
        }
        self.template.append(text);
        self.template_with_closing_tags.append(text);
    }

    pub fn push_template_text(&mut self, text: &str)
        ensures
            final(self)@ == old(self)@.with_template(text@),
    {
        proof {
            reveal(result_value);
        }
        self.template.append(text);
    }

    pub fn push_expr(&mut self, expr: Rc<Expr>)
        ensures
            final(self)@ == old(self)@.with_expr(expr@),
    {
        proof {
            reveal(result_value);
        }
        self.exprs.push(expr);
    }

    pub fn push_post_expr(&mut self, expr: Rc<Expr>)
        ensures
            final(self)@ == old(self)@.with_post_expr(expr@),
    {
        proof {
            reveal(result_value);
        }
        self.post_exprs.push(expr);
    }

    pub fn push_stmt(&mut self, stmt: Stmt)
        ensures
            final(self)@ == old(self)@.with_stmt(stmt@),
    {
        proof {
            reveal(result_value);
        }
        self.statements.push(stmt);
    }

    pub fn push_binding(&mut self, binding: DynamicBinding)
        ensures
            final(self)@ == old(self)@.with_binding(binding@),
    {
        proof {
            reveal(result_value);
        }
        self.dynamics.push(binding);
        proof {
            assert(binding_values(self.dynamics@) =~= binding_values(old(self).dynamics@).push(
                binding@,
            ));
        }
    }

    pub fn push_declaration(&mut self, pattern: Pattern, init: Rc<Expr>)
        ensures
            final(self)@ == old(self)@.with_declaration(pattern@, init@),
    {
        proof {
            reveal(result_value);
        }
        let declaration = Declaration { pattern, init };
        self.declarations.push(declaration);
        proof {
            assert(declaration_values(self.declarations@) =~= declaration_values(
                old(self).declarations@,
            ).push(declaration@));
        }
    }

    /// The tag name, or nothing.
    pub fn tag(&self) -> (tag: String)
        ensures
            tag@ == self@.tag(),
    {
        proof {
            reveal(result_value);
        }
        match &self.tag_name {
            None => {
                let tag = String::new();
                proof {
                    assert(tag@ =~= seq![]);
                }
                tag
            },
            Some(tag) => tag.clone(),
        }
    }

    /// The binding of `key` on `elem` to `value`.
    pub fn make_binding(&self, elem: &str, key: &str, value: Rc<Expr>) -> (binding: DynamicBinding)
        ensures
            binding@ == self@.binding(elem@, key@, value@),
    {
        proof {
            reveal(result_value);
        }
        DynamicBinding {
            elem: copied(elem),
            key: copied(key),
            value,
            is_svg: self.is_svg,
            is_ce: self.has_custom_element,
            tag_name: self.tag(),
        }
    }

    /// Binds `key` on `elem` to `value`.
    pub fn bind(&mut self, elem: &str, key: &str, value: Rc<Expr>)
        ensures
            final(self)@ == old(self)@.with_binding(old(self)@.binding(elem@, key@, value@)),
    {
        proof {
            reveal(result_value);
        }
        let binding = self.make_binding(elem, key, value);
        self.push_binding(binding);
    }

    /// The element is SVG.
    pub fn svg(&self) -> (yes: bool)
        ensures
            yes == self@.is_svg,
    {
        proof {
            reveal(result_value);
        }
        self.is_svg
    }

    /// A copy of the variable that holds the element.
    pub fn id_copy(&self) -> (id: Option<String>)
        ensures
            opt(id) == self@.id,
    {
        proof {
            reveal(result_value);
        }
        copied_option(&self.id)
    }

    /// How many attributes effects keep up to date.
    pub fn dynamics_len(&self) -> (n: usize)
        ensures
            n == self@.dynamics.len(),
    {
        proof {
            reveal(result_value);
        }
        self.dynamics.len()
    }

    pub fn set_skip_template(&mut self)
        ensures
            final(self)@ == (ResultV { skip_template: true, ..old(self)@ }),
    {
        proof {
            reveal(result_value);
        }
        self.skip_template = true;
    }

    /// A hydratable event lies in the element.
    pub fn hydratable_event(&self) -> (yes: bool)
        ensures
            yes == self@.has_hydratable_event,
    {
        proof {
            reveal(result_value);
        }
        self.has_hydratable_event
    }

    /// Notes a hydratable event, where there is one.
    pub fn note_hydratable_event(&mut self, found: bool)
        ensures
            final(self)@ == (ResultV {
                has_hydratable_event: old(self)@.has_hydratable_event || found,
                ..old(self)@
            }),
    {
        proof {
            reveal(result_value);
        }
        if found {
            self.has_hydratable_event = true;
        }
    }

    /// Adds an expression before all others.
    pub fn push_first_expr(&mut self, expr: Rc<Expr>)
        ensures
            final(self)@ == (ResultV { exprs: seq![expr@] + old(self)@.exprs, ..old(self)@ }),
    {
        proof {
            reveal(result_value);
        }
        self.exprs.insert(0, expr);
        proof {
            assert(expr_values(self.exprs@) =~= seq![expr@] + old(self)@.exprs);
        }
    }
}

// ---------------------------------------------------------------------------
// Names
// ---------------------------------------------------------------------------

/// The variable of the template at `index`.
pub open spec fn template_name(index: nat) -> Seq<char> {
    if index == 0 {
        "_tmpl$"@
    } else {
        "_tmpl$"@ + decimal(index + 1)
    }
}

/// The variable of the template at `index`.
pub fn template_var_name(index: usize) -> (name: String)
    requires
        index < usize::MAX,
    ensures
        name@ == template_name(index as nat),
{
    if index == 0 {
        copied("_tmpl$")
    } else {
        joined("_tmpl$", decimal_text(index + 1).as_str())
    }
}

/// Different templates have different variables.
pub proof fn template_names_differ(a: nat, b: nat)
    requires
        a != b,
    ensures
        template_name(a) != template_name(b),
{
    if template_name(a) == template_name(b) {
        decimal_nonempty(a + 1);
        decimal_nonempty(b + 1);
        let p = "_tmpl$"@;
        if a == 0 {
            assert((p + decimal(b + 1)).len() > p.len());
        } else if b == 0 {
            assert((p + decimal(a + 1)).len() > p.len());
        } else {
            assert((p + decimal(a + 1)).skip(p.len() as int) =~= decimal(a + 1));
            assert((p + decimal(b + 1)).skip(p.len() as int) =~= decimal(b + 1));
            decimal_injective(a + 1, b + 1);
        }
    }
}

/// The local name of a helper.
pub open spec fn helper_name(name: Seq<char>) -> Seq<char> {
    "_$"@ + name
}

/// The local name of a helper.
pub fn helper_local_name(name: &str) -> (local: String)
    ensures
        local@ == helper_name(name@),
{
    joined("_$", name)
}

/// Different helpers have different local names.
pub proof fn helper_names_differ(a: Seq<char>, b: Seq<char>)
    requires
        a != b,
    ensures
        helper_name(a) != helper_name(b),
{
    let p = "_$"@;
    assert((p + a).skip(p.len() as int) =~= a);
    assert((p + b).skip(p.len() as int) =~= b);
}

pub open spec fn helper_v(span: Span, name: Seq<char>) -> ExprV {
    ident_v(span, helper_name(name))
}

/// The identifier of a helper.
pub fn helper_ident_expr(span: Span, name: &str) -> (expr: Rc<Expr>)
    ensures
        expr@ == helper_v(span, name@),
{
    ident(span, helper_local_name(name).as_str())
}

// ---------------------------------------------------------------------------
// Context
// ---------------------------------------------------------------------------

/// A template of the file.
#[derive(Debug)]
pub struct TemplateInfo {
    pub content: String,
    pub validation_content: String,
    pub is_svg: bool,
    pub use_import_node: bool,
    pub is_math_ml: bool,
    pub span: Span,
}

pub ghost struct TemplateV {
    pub content: Seq<char>,
    pub validation_content: Seq<char>,
    pub is_svg: bool,
    pub use_import_node: bool,
    pub is_math_ml: bool,
    pub span: Span,
}

impl View for TemplateInfo {
    type V = TemplateV;

    open spec fn view(&self) -> TemplateV {
        TemplateV {
            content: self.content@,
            validation_content: self.validation_content@,
            is_svg: self.is_svg,
            use_import_node: self.use_import_node,
            is_math_ml: self.is_math_ml,
            span: self.span,
        }
    }
}

pub open spec fn template_values(items: Seq<TemplateInfo>) -> Seq<TemplateV> {
    items.map_values(|t: TemplateInfo| t@)
}

impl TemplateV {
    /// Has this content, of this kind.
    pub open spec fn is_same(self, content: Seq<char>, is_svg: bool, is_math_ml: bool) -> bool {
        self.content == content && self.is_svg == is_svg && self.is_math_ml == is_math_ml
    }
}

/// What a transform may come upon without its lowered form.
#[derive(Clone, Copy, Debug, PartialEq, Eq, Structural)]
pub enum Wanted {
    /// A component.
    Component,
    /// A condition that stands in place.
    Inline,
    /// A condition that is inserted.
    Insert,
}

/// A request for a lowered form: what is wanted, where it stands, and how many
/// steps had been taken when the transform came upon it.
#[derive(Clone, Copy, Debug, PartialEq, Eq, Structural)]
pub struct Asking {
    pub wanted: Wanted,
    pub span: Span,
    pub at: usize,
}

/// The memoized form of a condition; the condition itself stands for a form
/// that is not made yet.
pub open spec fn form_v(memo: Option<Memo>, expr: Expr) -> ExprV {
    match memo {
        Some(memo) => memo.expr@,
        None => expr@,
    }
}

/// A step that a context takes.
#[derive(Debug)]
pub enum Step {
    /// A fresh variable of this prefix.
    Uid(String),
    /// A helper that was not imported before.
    Import(String, HelperSource),
    Delegate(String),
    Template(TemplateInfo),
}

/// The value of a `Step`.
pub ghost enum StepV {
    Uid(Seq<char>),
    Import(Seq<char>, HelperSource),
    Delegate(Seq<char>),
    Template(TemplateV),
}

impl View for Step {
    type V = StepV;

    open spec fn view(&self) -> StepV {
        match *self {
            Step::Uid(prefix) => StepV::Uid(prefix@),
            Step::Import(name, source) => StepV::Import(name@, source),
            Step::Delegate(event) => StepV::Delegate(event@),
            Step::Template(template) => StepV::Template(template@),
        }
    }
}

pub open spec fn step_values(items: Seq<Step>) -> Seq<StepV> {
    items.map_values(|step: Step| step@)
}

proof fn step_values_push(items: Seq<Step>, item: Step)
    ensures
        step_values(items.push(item)) == step_values(items).push(item@),
{
    assert(step_values(items.push(item)) =~= step_values(items).push(item@));
}

/// The context of the block that is transformed.
pub struct BlockContext<'a> {
    /// The templates of the file.
    pub templates: Vec<TemplateInfo>,
    /// The imported helpers, by their imported names.
    pub helpers: IndexSet<String, FxBuildHasher>,
    /// The imports: imported name, local name and module.
    pub helper_imports: IndexSet<(String, String, String), FxBuildHasher>,
    /// The local name of each helper, by module and imported name.
    helper_aliases: FxHashMap<(String, String), String>,
    /// How many local names each imported name has.
    helper_alias_counters: FxHashMap<String, usize>,
    /// The delegated events.
    pub delegates: IndexSet<String, FxBuildHasher>,
    pub hydratable: bool,
    /// How many variables each prefix has.
    pub var_counter: FxHashMap<String, usize>,
    /// The values of constants, by symbol.
    pub constant_text_values: FxHashMap<u32, StaticTextValue>,
    pub effect_wrapper_enabled: bool,
    base_module_name: &'a str,
    dom_module_name: &'a str,
    universal_module_name: &'a str,
    source_text: &'a str,
    /// The steps that were taken.
    steps: Vec<Step>,
    /// What was first met without its lowered form.
    asked: Option<Asking>,
}

/// The value of a `BlockContext`.
pub ghost struct ContextV {
    pub templates: Seq<TemplateV>,
    pub helpers: Seq<Seq<char>>,
    pub imports: Seq<ImportV>,
    pub aliases: Map<(Seq<char>, Seq<char>), Seq<char>>,
    pub alias_counts: Map<Seq<char>, usize>,
    pub delegates: Seq<Seq<char>>,
    pub hydratable: bool,
    pub counts: Map<Seq<char>, usize>,
    pub constants: Map<u32, StaticTextV>,
    pub effect_wrapper_enabled: bool,
    pub base_module: Seq<char>,
    pub dom_module: Seq<char>,
    pub universal_module: Seq<char>,
    pub source: Seq<char>,
    pub steps: Seq<StepV>,
    pub asked: Option<Asking>,
}

/// The value of a `StaticTextValue`.
pub ghost enum StaticTextV {
    String(Seq<char>),
    Number(NumberV),
    Boolean(bool),
}

impl View for StaticTextValue {
    type V = StaticTextV;

    open spec fn view(&self) -> StaticTextV {
        match *self {
            StaticTextValue::String(text) => StaticTextV::String(text@),
            StaticTextValue::Number(number) => StaticTextV::Number(number@),
            StaticTextValue::Boolean(value) => StaticTextV::Boolean(value),
        }
    }
}

/// A float is plus or minus zero.
pub open spec fn is_zero(bits: u64) -> bool {
    bits == 0 || bits == 0x8000_0000_0000_0000
}

impl NumberV {
    /// The text of a number, zero without a sign.
    pub open spec fn shown(self) -> Seq<char> {
        if is_zero(self.bits) {
            "0"@
        } else {
            self.text
        }
    }
}

impl Number {
    /// Plus or minus zero.
    pub fn is_zero(&self) -> (yes: bool)
        ensures
            yes == is_zero(self@.bits),
    {
        self.bits == 0 || self.bits == 0x8000_0000_0000_0000
    }

    /// The text of a number, zero without a sign.
    pub fn shown(&self) -> (text: String)
        ensures
            text@ == self@.shown(),
    {
        if self.is_zero() {
            copied("0")
        } else {
            self.text.clone()
        }
    }

    pub fn duplicate(&self) -> (number: Number)
        ensures
            number@ == self@,
    {
        Number { bits: self.bits, text: self.text.clone() }
    }
}

impl StaticTextV {
    pub open spec fn text(self) -> Seq<char> {
        match self {
            StaticTextV::String(text) => text,
            StaticTextV::Number(number) => number.shown(),
            StaticTextV::Boolean(value) => if value {
                "true"@
            } else {
                "false"@
            },
        }
    }
}

impl StaticTextValue {
    /// The text that the value prints as.
    pub fn as_text(&self) -> (text: String)
        ensures
            text@ == self@.text(),
    {
        match self {
            StaticTextValue::String(text) => text.clone(),
            StaticTextValue::Number(number) => number.shown(),
            StaticTextValue::Boolean(value) => if *value {
                copied("true")
            } else {
                copied("false")
            },
        }
    }

    pub fn duplicate(&self) -> (value: StaticTextValue)
        ensures
            value@ == self@,
    {
        match self {
            StaticTextValue::String(text) => StaticTextValue::String(text.clone()),
            StaticTextValue::Number(number) => StaticTextValue::Number(number.duplicate()),
            StaticTextValue::Boolean(value) => StaticTextValue::Boolean(*value),
        }
    }
}

impl<'a> View for BlockContext<'a> {
    type V = ContextV;

    closed spec fn view(&self) -> ContextV {
        ContextV {
            templates: template_values(self.templates@),
            helpers: ordered_texts(self.helpers),
            imports: ordered_triples(self.helper_imports),
            aliases: aliases_of(self.helper_aliases),
            alias_counts: counts_of(self.helper_alias_counters),
            delegates: ordered_texts(self.delegates),
            hydratable: self.hydratable,
            counts: counts_of(self.var_counter),
            constants: constants_of(self.constant_text_values),
            effect_wrapper_enabled: self.effect_wrapper_enabled,
            base_module: self.base_module_name@,
            dom_module: self.dom_module_name@,
            universal_module: self.universal_module_name@,
            source: self.source_text@,
            steps: step_values(self.steps@),
            asked: self.asked,
        }
    }
}

/// The number behind `counts[key]`; a missing entry counts as zero, and the
/// largest number is followed by zero.
pub open spec fn next_count(counts: Map<Seq<char>, usize>, key: Seq<char>) -> usize {
    let count = if counts.dom().contains(key) {
        counts[key]
    } else {
        0
    };
    if count == usize::MAX {
        0
    } else {
        (count + 1) as usize
    }
}

/// What follows the prefix in the variable number `count`: nothing in the
/// first, then 2 to 9, 0, 1, and from there on the numbers from 10.
pub open spec fn uid_suffix(count: nat) -> Seq<char> {
    if count == 1 {
        seq![]
    } else if count < 10 {
        decimal(count)
    } else if count < 12 {
        decimal((count - 10) as nat)
    } else {
        decimal((count - 2) as nat)
    }
}

/// The variable number `count` of a prefix.
pub open spec fn uid_name(prefix: Seq<char>, count: nat) -> Seq<char> {
    "_"@ + prefix + uid_suffix(count)
}

/// The local name number `count` of a helper.
pub open spec fn alias_name(imported: Seq<char>, count: nat) -> Seq<char> {
    if count == 1 {
        "_$"@ + imported
    } else {
        "_$"@ + imported + decimal(count)
    }
}

/// A helper that belongs to the DOM runtime.
pub open spec fn is_dom_runtime_helper(name: Seq<char>) -> bool {
    name == "NoHydration"@ || name == "addEventListener"@ || name == "classList"@ || name
        == "className"@ || name == "delegateEvents"@ || name == "getNextElement"@ || name
        == "getNextMarker"@ || name == "getNextMatch"@ || name == "getOwner"@ || name == "insert"@
        || name == "runHydrationEvents"@ || name == "setAttribute"@ || name == "setAttributeNS"@
        || name == "setBoolAttribute"@ || name == "setProperty"@ || name == "setStyleProperty"@
        || name == "spread"@ || name == "style"@ || name == "template"@ || name == "use"@
}

fn dom_runtime_helper(name: &str) -> (yes: bool)
    ensures
        yes == is_dom_runtime_helper(name@),
{
    same(name, "NoHydration") || same(name, "addEventListener") || same(name, "classList") || same(
        name,
        "className",
    ) || same(name, "delegateEvents") || same(name, "getNextElement") || same(name, "getNextMarker")
        || same(name, "getNextMatch") || same(name, "getOwner") || same(name, "insert") || same(
        name,
        "runHydrationEvents",
    ) || same(name, "setAttribute") || same(name, "setAttributeNS") || same(
        name,
        "setBoolAttribute",
    ) || same(name, "setProperty") || same(name, "setStyleProperty") || same(name, "spread")
        || same(name, "style") || same(name, "template") || same(name, "use")
}

/// The position of the first template with this content and kind, or the
/// number of templates.
pub open spec fn template_position(
    templates: Seq<TemplateV>,
    content: Seq<char>,
    is_svg: bool,
    is_math_ml: bool,
) -> nat
    decreases templates.len(),
{
    if templates.len() == 0 || templates[0].is_same(content, is_svg, is_math_ml) {
        0
    } else {
        1 + template_position(templates.skip(1), content, is_svg, is_math_ml)
    }
}

pub proof fn template_position_is(
    templates: Seq<TemplateV>,
    content: Seq<char>,
    is_svg: bool,
    is_math_ml: bool,
    at: nat,
)
    requires
        at <= templates.len(),
        forall|k: int| 0 <= k < at ==> !templates[k].is_same(content, is_svg, is_math_ml),
        at < templates.len() ==> templates[at as int].is_same(content, is_svg, is_math_ml),
    ensures
        template_position(templates, content, is_svg, is_math_ml) == at,
    decreases templates.len(),
{
    if at > 0 {
        template_position_is(templates.skip(1), content, is_svg, is_math_ml, (at - 1) as nat);
    }
}

impl ContextV {
    /// A fresh variable.
    pub open spec fn uid(self, prefix: Seq<char>) -> (ContextV, Seq<char>) {
        let count = next_count(self.counts, prefix);
        (
            ContextV {
                counts: self.counts.insert(prefix, count),
                steps: self.steps.push(StepV::Uid(prefix)),
                ..self
            },
            uid_name(prefix, count as nat),
        )
    }

    pub open spec fn module_of(self, source: HelperSource) -> Seq<char> {
        match source {
            HelperSource::Base => self.base_module,
            HelperSource::Dom => self.dom_module,
            HelperSource::Universal => self.universal_module,
        }
    }

    pub open spec fn default_source(self, name: Seq<char>) -> HelperSource {
        if self.dom_module != self.base_module && is_dom_runtime_helper(name) {
            HelperSource::Dom
        } else {
            HelperSource::Base
        }
    }

    /// Imports a helper from a module, unless it is imported already, and gives
    /// its local name.
    pub open spec fn import(self, name: Seq<char>, source: HelperSource) -> (ContextV, Seq<char>) {
        let module = self.module_of(source);
        if self.aliases.dom().contains((module, name)) {
            (self, self.aliases[(module, name)])
        } else {
            let count = next_count(self.alias_counts, name);
            let local = alias_name(name, count as nat);
            (
                ContextV {
                    alias_counts: self.alias_counts.insert(name, count),
                    helpers: with_item(self.helpers, name),
                    aliases: self.aliases.insert((module, name), local),
                    imports: with_item(self.imports, (name, local, module)),
                    steps: self.steps.push(StepV::Import(name, source)),
                    ..self
                },
                local,
            )
        }
    }

    /// Imports a helper from where it comes from by default.
    pub open spec fn register(self, name: Seq<char>) -> ContextV {
        self.import(name, self.default_source(name)).0
    }

    pub open spec fn delegate(self, event: Seq<char>) -> ContextV {
        ContextV {
            delegates: with_item(self.delegates, event),
            steps: self.steps.push(StepV::Delegate(event)),
            ..self
        }
    }

    /// Adds a template, or finds the one with the same content.
    pub open spec fn add_template(self, template: TemplateV) -> (ContextV, nat) {
        let ctx = self.register("template"@);
        let at = template_position(
            ctx.templates,
            template.content,
            template.is_svg,
            template.is_math_ml,
        );
        if at < ctx.templates.len() {
            let found = ctx.templates[at as int];
            let merged = TemplateV {
                use_import_node: found.use_import_node || template.use_import_node,
                ..found
            };
            (
                ContextV {
                    templates: ctx.templates.update(at as int, merged),
                    steps: ctx.steps.push(StepV::Template(template)),
                    ..ctx
                },
                at,
            )
        } else {
            (
                ContextV {
                    templates: ctx.templates.push(template),
                    steps: ctx.steps.push(StepV::Template(template)),
                    ..ctx
                },
                at,
            )
        }
    }

    /// Asks for a lowered form; only the first request is kept.
    pub open spec fn ask(self, wanted: Wanted, span: Span) -> ContextV {
        ContextV {
            asked: match self.asked {
                Some(asked) => Some(asked),
                None => Some(Asking { wanted, span, at: self.steps.len() as usize }),
            },
            ..self
        }
    }

    /// The context behind a step.
    pub open spec fn behind(self, step: StepV) -> ContextV {
        match step {
            StepV::Uid(prefix) => self.uid(prefix).0,
            StepV::Import(name, source) => self.import(name, source).0,
            StepV::Delegate(event) => self.delegate(event),
            StepV::Template(template) => self.add_template(template).0,
        }
    }

    /// The context behind some steps.
    pub open spec fn behind_all(self, steps: Seq<StepV>) -> ContextV
        decreases steps.len(),
    {
        if steps.len() == 0 {
            self
        } else {
            self.behind_all(steps.drop_last()).behind(steps.last())
        }
    }

    /// Where a transform reaches a component: the context takes the steps of its
    /// lowered form, or asks for it.
    pub open spec fn reaching(self, element: JsxElement) -> ContextV {
        match element.component {
            Some(output) => self.behind_all(step_values(output.steps@)),
            None => self.ask(Wanted::Component, element.span),
        }
    }

    /// Where a transform reaches a condition: the context takes the steps of its
    /// memoized form, or asks for it.
    pub open spec fn lowering(self, memo: Option<Memo>, wanted: Wanted, span: Span) -> ContextV {
        match memo {
            Some(memo) => self.behind_all(step_values(memo.steps@)),
            None => self.ask(wanted, span),
        }
    }

    /// The context without a request.
    pub open spec fn unasked(self) -> ContextV {
        ContextV { asked: None, ..self }
    }

    /// A context of the same file that has taken no step.
    pub open spec fn blank(self) -> ContextV {
        ContextV {
            templates: seq![],
            helpers: seq![],
            imports: seq![],
            aliases: Map::empty(),
            alias_counts: Map::empty(),
            delegates: seq![],
            counts: Map::empty(),
            steps: seq![],
            asked: None,
            ..self
        }
    }

    /// The context as it was behind its first `n` steps.
    pub open spec fn rewound(self, n: nat) -> ContextV {
        self.blank().behind_all(self.steps.take(n as int))
    }

    /// The steps that a context has taken lead to it, and none of them is idle.
    #[verifier::opaque]
    pub open spec fn retraces(self) -> bool {
        &&& self.unasked() == self.blank().behind_all(self.steps)
        &&& forall|n: nat|
            n <= self.steps.len() ==> (#[trigger] self.rewound(n)).steps == self.steps.take(n as int)
    }

    /// The value of a constant.
    pub open spec fn constant(self, symbol: u32) -> Option<StaticTextV> {
        if self.constants.dom().contains(symbol) {
            Some(self.constants[symbol])
        } else {
            None
        }
    }
}

fn following(count: Option<usize>) -> (next: usize)
    ensures
        next == (match count {
            Some(count) => if count == usize::MAX {
                0
            } else {
                (count + 1) as usize
            },
            None => 1,
        }),
{
    match count {
        Some(count) => if count == usize::MAX {
            0
        } else {
            count + 1
        },
        None => 1,
    }
}

fn copied_template(template: &TemplateInfo) -> (copy: TemplateInfo)
    ensures
        copy@ == template@,
{
    TemplateInfo {
        content: template.content.clone(),
        validation_content: template.validation_content.clone(),
        is_svg: template.is_svg,
        use_import_node: template.use_import_node,
        is_math_ml: template.is_math_ml,
        span: template.span,
    }
}

fn copied_step(step: &Step) -> (copy: Step)
    ensures
        copy@ == step@,
{
    match step {
        Step::Uid(prefix) => Step::Uid(prefix.clone()),
        Step::Import(name, source) => Step::Import(name.clone(), *source),
        Step::Delegate(event) => Step::Delegate(event.clone()),
        Step::Template(template) => Step::Template(copied_template(template)),
    }
}

impl<'a> BlockContext<'a> {
    pub fn new(
        hydratable: bool,
        source_text: &'a str,
        effect_wrapper_enabled: bool,
        base_module_name: &'a str,
        dom_module_name: &'a str,
        universal_module_name: &'a str,
    ) -> (context: Self)
        ensures
            context@ == (ContextV {
                templates: seq![],
                helpers: seq![],
                imports: seq![],
                aliases: Map::empty(),
                alias_counts: Map::empty(),
                delegates: seq![],
                hydratable,
                counts: Map::empty(),
                constants: Map::empty(),
                effect_wrapper_enabled,
                base_module: base_module_name@,
                dom_module: dom_module_name@,
                universal_module: universal_module_name@,
                source: source_text@,
                steps: seq![],
                asked: None,
            }),
            context@.well_formed(),
    {
        let context = BlockContext {
            templates: Vec::new(),
            helpers: new_texts(),
            helper_imports: new_triples(),
            helper_aliases: new_aliases(),
            helper_alias_counters: new_counts(),
            delegates: new_texts(),
            hydratable,
            var_counter: new_counts(),
            constant_text_values: new_constants(),
            effect_wrapper_enabled,
            base_module_name,
            dom_module_name,
            universal_module_name,
            source_text,
            steps: Vec::new(),
            asked: None,
        };
        proof {
            reveal(ContextV::retraces);
            assert(step_values(context.steps@) =~= seq![]);
            assert(template_values(context.templates@) =~= seq![]);
            assert(constants_of(context.constant_text_values) =~= Map::empty());
            assert(aliases_of(context.helper_aliases) =~= Map::empty());
            assert(counts_of(context.helper_alias_counters) =~= Map::empty());
            assert(counts_of(context.var_counter) =~= Map::empty());
            assert forall|n: nat| n <= context@.steps.len() implies (#[trigger] context@.rewound(
                n,
            )).steps == context@.steps.take(n as int) by {
                assert(context@.steps.take(n as int) =~= seq![]);
            }
        }
        context
    }

    pub fn is_hydratable(&self) -> (yes: bool)
        ensures
            yes == self@.hydratable,
    {
        self.hydratable
    }

    pub fn wraps_effects(&self) -> (yes: bool)
        ensures
            yes == self@.effect_wrapper_enabled,
    {
        self.effect_wrapper_enabled
    }

    /// The source text.
    pub fn source(&self) -> (text: &'a str)
        ensures
            text@ == self@.source,
    {
        self.source_text
    }

    /// How many templates there are.
    pub fn templates_len(&self) -> (n: usize)
        ensures
            n == self@.templates.len(),
    {
        self.templates.len()
    }

    /// The templates of the file.
    pub fn templates_ref(&self) -> (templates: &Vec<TemplateInfo>)
        ensures
            template_values(templates@) == self@.templates,
    {
        &self.templates
    }

    /// Notes a step.
    fn take(&mut self, step: Step)
        ensures
            final(self)@ == (ContextV { steps: old(self)@.steps.push(step@), ..old(self)@ }),
    {
        proof {
            step_values_push(self.steps@, step);
        }
        self.steps.push(step);
    }

    /// How many steps were taken.
    pub fn steps_len(&self) -> (n: usize)
        ensures
            n == self@.steps.len(),
    {
        self.steps.len()
    }

    /// What was asked for, and how many steps had been taken then.
    pub fn asked_for(&self) -> (asked: Option<Asking>)
        ensures
            asked == self@.asked,
    {
        self.asked
    }

    /// Asks for a lowered form.
    pub fn ask(&mut self, wanted: Wanted, span: Span)
        ensures
            final(self)@ == old(self)@.ask(wanted, span),
    {
        if self.asked.is_none() {
            self.asked = Some(Asking { wanted, span, at: self.steps.len() });
        }
    }

    /// The steps from the one at `n` on.
    pub fn steps_from(&self, n: usize) -> (steps: Vec<Step>)
        requires
            n <= self@.steps.len(),
        ensures
            step_values(steps@) == self@.steps.skip(n as int),
    {
        let mut steps: Vec<Step> = Vec::new();
        let mut i: usize = n;
        while i < self.steps.len()
            invariant
                n <= i <= self.steps@.len(),
                steps@.len() == i - n,
                forall|k: int|
                    0 <= k < steps@.len() ==> (#[trigger] steps@[k])@ == self.steps@[n + k]@,
            decreases self.steps@.len() - i,
        {
            steps.push(copied_step(&self.steps[i]));
            i = i + 1;
        }
        proof {
            assert(step_values(steps@) =~= self@.steps.skip(n as int));
        }
        steps
    }

    /// Takes a step again.
    fn retake(&mut self, step: &Step)
        ensures
            final(self)@ == old(self)@.behind(step@),
    {
        match step {
            Step::Uid(prefix) => {
                let _name = self.generate_uid(prefix.as_str());
            },
            Step::Import(name, source) => {
                let _local = self.register_helper_with_source(name.as_str(), *source);
            },
            Step::Delegate(event) => self.register_delegate(event.as_str()),
            Step::Template(template) => {
                let _index = self.push_template(
                    template.content.clone(),
                    template.validation_content.clone(),
                    template.is_svg,
                    template.use_import_node,
                    template.is_math_ml,
                    template.span,
                );
            },
        }
    }

    /// Takes the first `n` of these steps.
    pub fn retake_all(&mut self, steps: &Vec<Step>, n: usize)
        requires
            n <= steps@.len(),
        ensures
            final(self)@ == old(self)@.behind_all(step_values(steps@).take(n as int)),
    {
        let mut i: usize = 0;
        while i < n
            invariant
                i <= n <= steps@.len(),
                self@ == old(self)@.behind_all(step_values(steps@).take(i as int)),
            decreases n - i,
        {
            self.retake(&steps[i]);
            proof {
                let values = step_values(steps@);
                assert(values.take(i + 1).drop_last() =~= values.take(i as int));
                assert(values.take(i + 1).last() == steps@[i as int]@);
            }
            i = i + 1;
        }
    }

    /// Where a transform reaches a component.
    pub fn reach(&mut self, element: &JsxElement)
        ensures
            final(self)@ == old(self)@.reaching(*element),
    {
        match &element.component {
            Some(output) => {
                self.retake_all(&output.steps, output.steps.len());
                proof {
                    let values = step_values(output.steps@);
                    assert(values.take(values.len() as int) =~= values);
                }
            },
            None => self.ask(Wanted::Component, element.span),
        }
    }

    /// Where a transform reaches a condition: its memoized form, or what stands
    /// for it until it is made.
    pub fn lower(&mut self, memo: &Option<Memo>, wanted: Wanted, expr: &Rc<Expr>) -> (form: Rc<Expr>)
        ensures
            form@ == form_v(*memo, **expr),
            final(self)@ == old(self)@.lowering(*memo, wanted, expr.span),
    {
        match memo {
            Some(memo) => {
                self.retake_all(&memo.steps, memo.steps.len());
                proof {
                    let values = step_values(memo.steps@);
                    assert(values.take(values.len() as int) =~= values);
                }
                share(&memo.expr)
            },
            None => {
                self.ask(wanted, expr.span);
                share(expr)
            },
        }
    }

    /// Goes back to where a context was behind its first `n` steps.
    pub fn rewind(self, n: usize) -> (earlier: Self)
        requires
            n <= self@.steps.len(),
        ensures
            earlier@ == self@.rewound(n as nat),
    {
        let mut earlier = BlockContext::new(
            self.hydratable,
            self.source_text,
            self.effect_wrapper_enabled,
            self.base_module_name,
            self.dom_module_name,
            self.universal_module_name,
        );
        earlier.constant_text_values = self.constant_text_values;
        proof {
            assert(earlier@ == self@.blank());
        }
        earlier.retake_all(&self.steps, n);
        earlier
    }

    /// A fresh variable, numbered as Babel does.
    pub fn generate_uid(&mut self, prefix: &str) -> (name: String)
        ensures
            (final(self)@, name@) == old(self)@.uid(prefix@),
    {
        let count: usize = following(get_count(&self.var_counter, prefix));
        set_count(&mut self.var_counter, copied(prefix), count);
        self.take(Step::Uid(copied(prefix)));
        let mut name = joined("_", prefix);
        if count == 1 {
            proof {
                assert(name@ + seq![] =~= name@);
            }
            name
        } else if count < 10 {
            name.append(decimal_text(count).as_str());
            name
        } else if count < 12 {
            name.append(decimal_text(count - 10).as_str());
            name
        } else {
            name.append(decimal_text(count - 2).as_str());
            name
        }
    }

    fn helper_module_for_source(&self, source: HelperSource) -> (module: &'a str)
        ensures
            module@ == self@.module_of(source),
    {
        match source {
            HelperSource::Base => self.base_module_name,
            HelperSource::Dom => self.dom_module_name,
            HelperSource::Universal => self.universal_module_name,
        }
    }

    fn default_source_for_helper(&self, name: &str) -> (source: HelperSource)
        ensures
            source == self@.default_source(name@),
    {
        if !same(self.dom_module_name, self.base_module_name) && dom_runtime_helper(name) {
            HelperSource::Dom
        } else {
            HelperSource::Base
        }
    }

    fn allocate_helper_local(&mut self, imported: &str) -> (local: String)
        ensures
            local@ == alias_name(
                imported@,
                next_count(old(self)@.alias_counts, imported@) as nat,
            ),
            final(self)@ == (ContextV {
                alias_counts: old(self)@.alias_counts.insert(
                    imported@,
                    next_count(old(self)@.alias_counts, imported@),
                ),
                ..old(self)@
            }),
    {
        let count: usize = following(get_count(&self.helper_alias_counters, imported));
        set_count(&mut self.helper_alias_counters, copied(imported), count);
        let mut local = joined("_$", imported);
        if count != 1 {
            local.append(decimal_text(count).as_str());
        }
        local
    }

    /// Imports a helper and gives its local name.
    pub fn register_helper_with_source(&mut self, name: &str, source: HelperSource) -> (local:
        String)
        ensures
            (final(self)@, local@) == old(self)@.import(name@, source),
    {
        let module = self.helper_module_for_source(source);
        let key = (copied(module), copied(name));
        match get_alias(&self.helper_aliases, &key) {
            Some(local) => local,
            None => {
                let local = self.allocate_helper_local(name);
                insert_text(&mut self.helpers, copied(name));
                set_alias(&mut self.helper_aliases, key, local.clone());
                insert_triple(
                    &mut self.helper_imports,
                    (copied(name), local.clone(), copied(module)),
                );
                self.take(Step::Import(copied(name), source));
                local
            },
        }
    }

    /// Imports a helper from where it comes from by default.
    pub fn register_helper(&mut self, name: &str)
        ensures
            final(self)@ == old(self)@.register(name@),
    {
        let source = self.default_source_for_helper(name);
        let _local = self.register_helper_with_source(name, source);
    }

    pub fn register_dom_helper(&mut self, name: &str)
        ensures
            final(self)@ == old(self)@.import(name@, HelperSource::Dom).0,
    {
        let _local = self.register_helper_with_source(name, HelperSource::Dom);
    }

    pub fn register_universal_helper(&mut self, name: &str)
        ensures
            final(self)@ == old(self)@.import(name@, HelperSource::Universal).0,
    {
        let _local = self.register_helper_with_source(name, HelperSource::Universal);
    }

    /// The identifier of a helper, imported where it was not.
    pub fn helper_ident_expr_with_source(
        &mut self,
        span: Span,
        name: &str,
        source: HelperSource,
    ) -> (expr: Rc<Expr>)
        ensures
            final(self)@ == old(self)@.import(name@, source).0,
            expr@ == ident_v(span, old(self)@.import(name@, source).1),
    {
        let local = self.register_helper_with_source(name, source);
        ident(span, local.as_str())
    }

    /// The imports, in the order in which they were made.
    pub fn helper_imports_vec(&self) -> (imports: Vec<HelperImport>)
        ensures
            imports@.map_values(|i: HelperImport| i@) == self@.imports,
    {
        let triples = triples_in_order(&self.helper_imports);
        let ghost values = triples@.map_values(
            |t: (String, String, String)| (t.0@, t.1@, t.2@),
        );
        let mut imports: Vec<HelperImport> = Vec::new();
        let mut i: usize = 0;
        while i < triples.len()
            invariant
                i <= triples.len(),
                imports@.len() == i,
                values == triples@.map_values(|t: (String, String, String)| (t.0@, t.1@, t.2@)),
                forall|k: int| 0 <= k < i ==> #[trigger] imports@[k]@ == values[k],
            decreases triples.len() - i,
        {
            let t = &triples[i];
            imports.push(
                HelperImport { imported: t.0.clone(), local: t.1.clone(), module: t.2.clone() },
            );
            i = i + 1;
        }
        proof {
            assert(imports@.map_values(|i: HelperImport| i@) =~= values);
        }
        imports
    }

    /// The helpers, by their imported names, in the order of registration.
    pub fn helpers_vec(&self) -> (helpers: Vec<String>)
        ensures
            texts(helpers@) == self@.helpers,
    {
        texts_in_order(&self.helpers)
    }

    /// The delegated events, in the order of registration.
    pub fn delegates_vec(&self) -> (delegates: Vec<String>)
        ensures
            texts(delegates@) == self@.delegates,
    {
        texts_in_order(&self.delegates)
    }

    /// Notes a delegated event.
    pub fn register_delegate(&mut self, event: &str)
        ensures
            final(self)@ == old(self)@.delegate(event@),
    {
        insert_text(&mut self.delegates, copied(event));
        self.take(Step::Delegate(copied(event)));
    }

    /// Adds a template, or finds the one with the same content, and gives its
    /// index.
    pub fn push_template(
        &mut self,
        content: String,
        validation_content: String,
        is_svg: bool,
        use_import_node: bool,
        is_math_ml: bool,
        span: Span,
    ) -> (index: usize)
        ensures
            (final(self)@, index as nat) == old(self)@.add_template(
                TemplateV {
                    content: content@,
                    validation_content: validation_content@,
                    is_svg,
                    use_import_node,
                    is_math_ml,
                    span,
                },
            ),
            index < final(self)@.templates.len(),
            final(self)@.templates.len() <= usize::MAX,
    {
        self.register_helper("template");
        let ghost ctx = self@;
        let ghost asked = TemplateV {
            content: content@,
            validation_content: validation_content@,
            is_svg,
            use_import_node,
            is_math_ml,
            span,
        };
        let mut i: usize = 0;
        while i < self.templates.len()
            invariant
                i <= self.templates.len(),
                self@ == ctx,
                ctx == old(self)@.register("template"@),
                asked == (TemplateV {
                    content: content@,
                    validation_content: validation_content@,
                    is_svg,
                    use_import_node,
                    is_math_ml,
                    span,
                }),
                forall|k: int|
                    0 <= k < i ==> !#[trigger] ctx.templates[k].is_same(
                        content@,
                        is_svg,
                        is_math_ml,
                    ),
            decreases self.templates.len() - i,
        {
            if same(self.templates[i].content.as_str(), content.as_str())
                && self.templates[i].is_svg == is_svg && self.templates[i].is_math_ml
                == is_math_ml {
                let found = &self.templates[i];
                let merged = TemplateInfo {
                    content: found.content.clone(),
                    validation_content: found.validation_content.clone(),
                    is_svg: found.is_svg,
                    use_import_node: found.use_import_node || use_import_node,
                    is_math_ml: found.is_math_ml,
                    span: found.span,
                };
                let ghost whole = self.templates@[i as int]@;
                self.templates.set(i, merged);
                proof {
                    assert(ctx.templates[i as int] == whole);
                    assert(merged@ == TemplateV {
                        use_import_node: whole.use_import_node || use_import_node,
                        ..whole
                    });
                    assert(ctx.templates[i as int].is_same(content@, is_svg, is_math_ml));
                    template_position_is(ctx.templates, content@, is_svg, is_math_ml, i as nat);
                    assert(template_values(self.templates@) =~= ctx.templates.update(
                        i as int,
                        merged@,
                    ));
                    assert(self@ == ContextV {
                        templates: ctx.templates.update(i as int, merged@),
                        ..ctx
                    });
                }
                self.take(
                    Step::Template(
                        TemplateInfo {
                            content,
                            validation_content,
                            is_svg,
                            use_import_node,
                            is_math_ml,
                            span,
                        },
                    ),
                );
                return i;
            }
            proof {
                assert(!ctx.templates[i as int].is_same(content@, is_svg, is_math_ml));
            }
            i = i + 1;
        }
        proof {
            template_position_is(ctx.templates, content@, is_svg, is_math_ml, i as nat);
        }
        let template = TemplateInfo {
            content,
            validation_content,
            is_svg,
            use_import_node,
            is_math_ml,
            span,
        };
        let noted = copied_template(&template);
        self.templates.push(template);
        proof {
            assert(template_values(self.templates@) =~= ctx.templates.push(template@));
            assert(self.templates@.len() == self.templates.len());
        }
        self.take(Step::Template(noted));
        i
    }

    /// Sets the value of a constant.
    pub fn set_constant_text_value(&mut self, symbol_id: u32, value: StaticTextValue)
        ensures
            final(self)@ == (ContextV {
                constants: old(self)@.constants.insert(symbol_id, value@),
                ..old(self)@
            }),
            old(self)@.well_formed() ==> final(self)@.well_formed(),
    {
        proof {
            if self@.well_formed() {
                constants_retrace(self@, self@.constants.insert(symbol_id, value@));
            }
        }
        set_constant(&mut self.constant_text_values, symbol_id, value);
    }

    /// The value of a constant.
    pub fn get_constant_text_value(&self, symbol_id: u32) -> (value: Option<StaticTextValue>)
        ensures
            (match value {
                Some(value) => Some(value@),
                None => None,
            }) == self@.constant(symbol_id),
    {
        match get_constant(&self.constant_text_values, symbol_id) {
            Some(value) => Some(value.duplicate()),
            None => None,
        }
    }
}

// ---------------------------------------------------------------------------
// Laws
// ---------------------------------------------------------------------------

/// Variables of one prefix with different numbers have different names.
pub proof fn uid_names_differ(prefix: Seq<char>, a: nat, b: nat)
    requires
        1 <= a,
        1 <= b,
        a != b,
    ensures
        uid_name(prefix, a) != uid_name(prefix, b),
{
    if uid_name(prefix, a) == uid_name(prefix, b) {
        let p = "_"@ + prefix;
        assert((p + uid_suffix(a)).skip(p.len() as int) =~= uid_suffix(a));
        assert((p + uid_suffix(b)).skip(p.len() as int) =~= uid_suffix(b));
        let x = uid_number(a);
        let y = uid_number(b);
        decimal_nonempty(x);
        decimal_nonempty(y);
        if a != 1 && b != 1 {
            decimal_injective(x, y);
        }
    }
}

spec fn uid_number(count: nat) -> nat {
    if count < 10 {
        count
    } else if count < 12 {
        (count - 10) as nat
    } else {
        (count - 2) as nat
    }
}

/// Two variables of one prefix, made one after the other before the counter is
/// exhausted, have different names.
pub proof fn fresh_variables_differ(ctx: ContextV, prefix: Seq<char>)
    requires
        next_count(ctx.counts, prefix) != 0,
        next_count(ctx.uid(prefix).0.counts, prefix) != 0,
    ensures
        ctx.uid(prefix).1 != ctx.uid(prefix).0.uid(prefix).1,
{
    let a = next_count(ctx.counts, prefix) as nat;
    uid_names_differ(prefix, a, a + 1);
}

/// The context without a request takes a step as the one with it does.
proof fn request_stands_apart(ctx: ContextV, step: StepV)
    ensures
        ctx.behind(step).unasked() == ctx.unasked().behind(step),
        ctx.behind(step).blank() == ctx.blank(),
{
}

proof fn constants_stand_apart(ctx: ContextV, constants: Map<u32, StaticTextV>, steps: Seq<StepV>)
    ensures
        (ContextV { constants, ..ctx }).behind_all(steps) == (ContextV {
            constants,
            ..ctx.behind_all(steps)
        }),
    decreases steps.len(),
{
    if steps.len() > 0 {
        constants_stand_apart(ctx, constants, steps.drop_last());
    }
}

/// With other constants, the steps that were taken still lead to the context.
pub proof fn constants_retrace(ctx: ContextV, constants: Map<u32, StaticTextV>)
    requires
        ctx.retraces(),
    ensures
        (ContextV { constants, ..ctx }).retraces(),
{
    reveal(ContextV::retraces);
    constants_stand_apart(ctx.blank(), constants, ctx.steps);
    let other = ContextV { constants, ..ctx };
    assert(other.blank() == (ContextV { constants, ..ctx.blank() }));
    assert forall|n: nat| n <= other.steps.len() implies (#[trigger] other.rewound(n)).steps
        == other.steps.take(n as int) by {
        constants_stand_apart(ctx.blank(), constants, ctx.steps.take(n as int));
        assert(ctx.rewound(n).steps == ctx.steps.take(n as int));
    }
}

/// A step that is noted leads on.
proof fn step_retraces(ctx: ContextV, later: ContextV, step: StepV)
    requires
        ctx.retraces(),
        later == ctx.behind(step),
        later.steps == ctx.steps.push(step),
    ensures
        later.retraces(),
{
    reveal(ContextV::retraces);
    request_stands_apart(ctx, step);
    assert(later.steps.drop_last() =~= ctx.steps);
    assert forall|n: nat| n <= later.steps.len() implies (#[trigger] later.rewound(n)).steps
        == later.steps.take(n as int) by {
        if n <= ctx.steps.len() {
            assert(later.steps.take(n as int) =~= ctx.steps.take(n as int));
            assert(later.rewound(n) == ctx.rewound(n));
        } else {
            assert(later.steps.take(n as int) =~= later.steps);
        }
    }
}

/// Behind a step the steps that were taken still lead to the context.
pub proof fn behind_retraces(ctx: ContextV, step: StepV)
    requires
        ctx.retraces(),
    ensures
        ctx.behind(step).retraces(),
        ctx.steps.is_prefix_of(ctx.behind(step).steps),
{
    let later = ctx.behind(step);
    match step {
        StepV::Template(template) => {
            let source = ctx.default_source("template"@);
            let mid = ctx.register("template"@);
            if mid != ctx {
                step_retraces(ctx, mid, StepV::Import("template"@, source));
            }
            assert(mid.behind(step) == later) by {
                assert(mid.register("template"@) == mid);
            }
            step_retraces(mid, later, step);
        },
        StepV::Import(_, _) => {
            if later != ctx {
                step_retraces(ctx, later, step);
            }
        },
        _ => step_retraces(ctx, later, step),
    }
}

/// What was asked for leaves the steps.
pub proof fn asking_retraces(ctx: ContextV, wanted: Wanted, span: Span)
    requires
        ctx.retraces(),
    ensures
        ctx.ask(wanted, span).retraces(),
{
    reveal(ContextV::retraces);
    let later = ctx.ask(wanted, span);
    assert forall|n: nat| n <= later.steps.len() implies (#[trigger] later.rewound(n)).steps
        == later.steps.take(n as int) by {
        assert(later.rewound(n) == ctx.rewound(n));
    }
}

/// A context that has since taken more steps can be taken back to where it was.
pub proof fn rewinding_undoes(ctx: ContextV, later: ContextV)
    requires
        ctx.retraces(),
        ctx.blank() == later.blank(),
        ctx.steps.is_prefix_of(later.steps),
    ensures
        later.rewound(ctx.steps.len()) == ctx.unasked(),
{
    reveal(ContextV::retraces);
    assert(later.steps.take(ctx.steps.len() as int) =~= ctx.steps);
}

/// A context that was taken back has taken the steps up to there.
pub proof fn rewinding_keeps_steps(ctx: ContextV, n: nat)
    requires
        ctx.retraces(),
        n <= ctx.steps.len(),
    ensures
        ctx.rewound(n).steps == ctx.steps.take(n as int),
        ctx.rewound(n).blank() == ctx.blank(),
{
    reveal(ContextV::retraces);
    blank_stays(ctx.blank(), ctx.steps.take(n as int));
}

proof fn blank_stays(ctx: ContextV, steps: Seq<StepV>)
    ensures
        ctx.behind_all(steps).blank() == ctx.blank(),
    decreases steps.len(),
{
    if steps.len() > 0 {
        blank_stays(ctx, steps.drop_last());
        request_stands_apart(ctx.behind_all(steps.drop_last()), steps.last());
    }
}

/// A form that is reached leaves the source.
pub proof fn lowering_keeps_source(
    ctx: ContextV,
    memo: &Option<Memo>,
    wanted: Wanted,
    span: Span,
)
    ensures
        ctx.lowering(*memo, wanted, span).source == ctx.source,
{
    if let Some(memo) = memo {
        let steps = step_values(memo.steps@);
        blank_stays(ctx, steps);
        assert(ctx.behind_all(steps).blank().source == ctx.blank().source);
    }
}

/// How many variables of a prefix were made.
pub open spec fn made(counts: Map<Seq<char>, usize>, prefix: Seq<char>) -> nat {
    if counts.dom().contains(prefix) {
        counts[prefix] as nat
    } else {
        0
    }
}

proof fn made_grows(ctx: ContextV, steps: Seq<StepV>, prefix: Seq<char>)
    requires
        made(ctx.counts, prefix) + steps.len() < usize::MAX,
    ensures
        made(ctx.counts, prefix) <= made(ctx.behind_all(steps).counts, prefix),
        made(ctx.behind_all(steps).counts, prefix) <= made(ctx.counts, prefix) + steps.len(),
    decreases steps.len(),
{
    if steps.len() > 0 {
        made_grows(ctx, steps.drop_last(), prefix);
    }
}

/// Two variables of one prefix have different names, whatever steps come
/// between them, as long as the counter of the prefix is not exhausted; and
/// both begin with an underscore and the prefix.
pub proof fn variables_of_a_prefix_differ(
    ctx: ContextV,
    steps: Seq<StepV>,
    prefix: Seq<char>,
)
    requires
        made(ctx.counts, prefix) + steps.len() + 2 < usize::MAX,
    ensures
        ({
            let (mid, first) = ctx.uid(prefix);
            let second = mid.behind_all(steps).uid(prefix).1;
            &&& first != second
            &&& starts_with(first, "_"@ + prefix)
            &&& starts_with(second, "_"@ + prefix)
        }),
{
    let mid = ctx.uid(prefix).0;
    made_grows(mid, steps, prefix);
    let a = next_count(ctx.counts, prefix) as nat;
    let b = next_count(mid.behind_all(steps).counts, prefix) as nat;
    assert(a < b);
    uid_names_differ(prefix, a, b);
    let p = "_"@ + prefix;
    assert((p + uid_suffix(a)).take(p.len() as int) =~= p);
    assert((p + uid_suffix(b)).take(p.len() as int) =~= p);
}

/// Importing a helper a second time changes nothing and gives the same name.
pub proof fn import_twice(ctx: ContextV, name: Seq<char>, source: HelperSource)
    ensures
        ctx.import(name, source).0.import(name, source) == ctx.import(name, source),
{
}

/// An import leaves the local names of the other helpers as they were.
pub proof fn import_keeps_names(
    ctx: ContextV,
    name: Seq<char>,
    source: HelperSource,
    key: (Seq<char>, Seq<char>),
)
    requires
        ctx.aliases.dom().contains(key),
    ensures
        ctx.import(name, source).0.aliases.dom().contains(key),
        ctx.import(name, source).0.aliases[key] == ctx.aliases[key],
{
}

impl ContextV {
    /// Neither helpers, nor imports, nor delegated events repeat; every helper
    /// of an alias has been counted, and the imports are the aliases.  The steps
    /// that were taken lead to the context.
    pub open spec fn well_formed(self) -> bool {
        &&& self.helpers.no_duplicates()
        &&& self.imports.no_duplicates()
        &&& self.delegates.no_duplicates()
        &&& self.retraces()
        &&& self.asked matches Some(asking) ==> asking.at <= self.steps.len()
        &&& forall|key: (Seq<char>, Seq<char>)| #[trigger]
            self.aliases.dom().contains(key) ==> self.imports.contains(
                (key.1, self.aliases[key], key.0),
            ) && self.helpers.contains(key.1)
        &&& forall|i: int|
            0 <= i < self.imports.len() ==> {
                let import = #[trigger] self.imports[i];
                &&& self.aliases.dom().contains((import.2, import.0))
                &&& self.aliases[(import.2, import.0)] == import.1
            }
        &&& forall|i: int, j: int|
            0 <= i < j < self.templates.len() ==> !(#[trigger] self.templates[i]).is_same(
                (#[trigger] self.templates[j]).content,
                self.templates[j].is_svg,
                self.templates[j].is_math_ml,
            )
    }
}

/// Importing keeps the context well formed.
pub proof fn import_keeps_well_formed(ctx: ContextV, name: Seq<char>, source: HelperSource)
    requires
        ctx.well_formed(),
    ensures
        ctx.import(name, source).0.well_formed(),
{
    behind_retraces(ctx, StepV::Import(name, source));
    let module = ctx.module_of(source);
    let key = (module, name);
    if !ctx.aliases.dom().contains(key) {
        let next = ctx.import(name, source).0;
        let local = ctx.import(name, source).1;
        assert(!ctx.imports.contains((name, local, module))) by {
            if ctx.imports.contains((name, local, module)) {
                let i = choose|i: int|
                    0 <= i < ctx.imports.len() && ctx.imports[i] == (name, local, module);
                assert(ctx.aliases.dom().contains((ctx.imports[i].2, ctx.imports[i].0)));
            }
        }
        assert(next.imports == ctx.imports.push((name, local, module)));
        assert forall|k: (Seq<char>, Seq<char>)| #[trigger]
            next.aliases.dom().contains(k) implies next.imports.contains(
            (k.1, next.aliases[k], k.0),
        ) && next.helpers.contains(k.1) by {
            if k == key {
                assert(next.imports[ctx.imports.len() as int] == (name, local, module));
                if !ctx.helpers.contains(name) {
                    assert(next.helpers[ctx.helpers.len() as int] == name);
                }
            } else {
                assert(ctx.aliases.dom().contains(k));
                let i = choose|i: int|
                    0 <= i < ctx.imports.len() && ctx.imports[i] == (k.1, ctx.aliases[k], k.0);
                assert(next.imports[i] == ctx.imports[i]);
                let j = choose|j: int| 0 <= j < ctx.helpers.len() && ctx.helpers[j] == k.1;
                assert(next.helpers[j] == ctx.helpers[j]);
            }
        }
        assert forall|i: int| 0 <= i < next.imports.len() implies ({
            let import = #[trigger] next.imports[i];
            &&& next.aliases.dom().contains((import.2, import.0))
            &&& next.aliases[(import.2, import.0)] == import.1
        }) by {
            if i < ctx.imports.len() {
                let import = ctx.imports[i];
                assert(next.imports[i] == import);
                assert(ctx.aliases.dom().contains((import.2, import.0)));
            }
        }
    }
}

/// Adding a template keeps the context well formed: no two templates have the
/// same content and kind.
pub proof fn add_template_keeps_well_formed(ctx: ContextV, template: TemplateV)
    requires
        ctx.well_formed(),
    ensures
        ctx.add_template(template).0.well_formed(),
{
    behind_retraces(ctx, StepV::Template(template));
    import_keeps_well_formed(ctx, "template"@, ctx.default_source("template"@));
    let next = ctx.register("template"@);
    template_position_bounds(
        next.templates,
        template.content,
        template.is_svg,
        template.is_math_ml,
    );
}

/// The template at the index that `add_template` gives has the content and kind
/// that were asked for, and the others are as they were.
pub proof fn add_template_gives_its_index(ctx: ContextV, template: TemplateV)
    ensures
        ctx.add_template(template).1 < ctx.add_template(template).0.templates.len(),
        ctx.add_template(template).0.templates[ctx.add_template(template).1 as int].is_same(
            template.content,
            template.is_svg,
            template.is_math_ml,
        ),
        forall|i: int|
            0 <= i < ctx.templates.len() && i != ctx.add_template(template).1
                ==> #[trigger] ctx.add_template(template).0.templates[i] == ctx.templates[i],
{
    template_position_bounds(
        ctx.register("template"@).templates,
        template.content,
        template.is_svg,
        template.is_math_ml,
    );
}

proof fn template_position_bounds(
    templates: Seq<TemplateV>,
    content: Seq<char>,
    is_svg: bool,
    is_math_ml: bool,
)
    ensures
        template_position(templates, content, is_svg, is_math_ml) <= templates.len(),
        template_position(templates, content, is_svg, is_math_ml) < templates.len()
            ==> templates[template_position(
            templates,
            content,
            is_svg,
            is_math_ml,
        ) as int].is_same(content, is_svg, is_math_ml),
        forall|k: int|
            0 <= k < template_position(templates, content, is_svg, is_math_ml)
                ==> !#[trigger] templates[k].is_same(content, is_svg, is_math_ml),
    decreases templates.len(),
{
    if templates.len() > 0 && !templates[0].is_same(content, is_svg, is_math_ml) {
        let rest = templates.skip(1);
        template_position_bounds(rest, content, is_svg, is_math_ml);
        let n = template_position(templates, content, is_svg, is_math_ml);
        assert forall|k: int| 0 <= k < n implies !#[trigger] templates[k].is_same(
            content,
            is_svg,
            is_math_ml,
        ) by {
            if k > 0 {
                assert(rest[k - 1] == templates[k]);
            }
        }
        assert(n < templates.len() ==> rest[n - 1] == templates[n as int]);
    }
}

} // verus!
