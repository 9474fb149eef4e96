//! The refresh transform: every JSX tree of a program becomes a use of a
//! template component that is declared in front of the statement.

use crate::ast::option_text;
use crate::copy::copied_texts;
use crate::make::copied;
use crate::outside::share;
use crate::refresh_extract::{extract_jsx_expressions, jsx_out, Extraction, ExtractionV};
use crate::refresh_names::{
    collect_top_level_names, component_ish, descriptive_name, free_name, generate_unique_name,
    get_descriptive_name_from_statement, is_component_ish_name, is_skipped, may_contain_jsx,
    should_skip_jsx, statement_may_contain_jsx, top_level_names, Comment,
};
use crate::refresh_tree::{
    arg_value, arg_values, attr_values, child_values, class_value, declaration_value,
    declarator_value, declarator_values, exported_value, expr_value, expr_values, function_value,
    group_program_values, jsx_value, option_value, other_value, params_value, part_value, part_values,
    pattern_value, stmt_value, stmt_values, variables_value, Arg, ArgV, Attr, AttrV, Child, ChildV,
    Class, ClassV, Declaration, DeclarationV, Declarator, DeclaratorV, Exported, ExportedV, Expr,
    ExprV, Form, Function, FunctionV, Jsx, JsxV, Name, NameV, Params, ParamsV, Part, PartV, Pattern,
    PatternV, Stmt, StmtV, Variables, VariablesV,
};
use crate::text::{chars_of, joined, texts};
use std::rc::Rc;
use vstd::prelude::*;

verus! {

broadcast use group_program_values;

/// What stays the same throughout a program.
#[derive(Debug)]
pub struct Scene {
    /// The names bound at the top level.
    pub top: Vec<String>,
    pub source: Vec<char>,
    pub comments: Vec<Comment>,
}

/// The value of a `Scene`.
pub ghost struct SceneV {
    pub top: Seq<Seq<char>>,
    pub source: Seq<char>,
    pub comments: Seq<Comment>,
}

impl View for Scene {
    type V = SceneV;

    open spec fn view(&self) -> SceneV {
        SceneV { top: texts(self.top@), source: self.source@, comments: self.comments@ }
    }
}

/// What changes: the names that are taken, and the templates to declare.
#[derive(Debug)]
pub struct Walk {
    pub taken: Vec<String>,
    pub insertions: Vec<Rc<Stmt>>,
}

/// The value of a `Walk`.
pub ghost struct WalkV {
    pub taken: Seq<Seq<char>>,
    pub insertions: Seq<StmtV>,
}

impl View for Walk {
    type V = WalkV;

    open spec fn view(&self) -> WalkV {
        WalkV { taken: texts(self.taken@), insertions: stmt_values(self.insertions@) }
    }
}

// ---------------------------------------------------------------------------
// One tree
// ---------------------------------------------------------------------------

/// The name that a template is made of.
pub open spec fn template_base(desc: Seq<char>) -> Seq<char> {
    if component_ish(desc) {
        desc
    } else {
        "JSX_"@ + desc
    }
}

/// `(_props) => left`, or with directives `(_props) => { const vars; return
/// left; }`.
pub open spec fn template_body_v(left: JsxV, vars: Seq<DeclaratorV>) -> ExprV {
    let tree = ExprV::Jsx(Box::new(left));
    ExprV::Arrow {
        params: ParamsV::One("_props"@),
        expression: vars.len() == 0,
        body: if vars.len() == 0 {
            Seq::empty().push(StmtV::Expr(tree))
        } else {
            Seq::empty().push(
                StmtV::Variables(VariablesV { form: Form::Plain, declarators: vars }),
            ).push(StmtV::Return(Some(tree)))
        },
    }
}

/// `const name = body`.
pub open spec fn const_v(name: Seq<char>, body: ExprV) -> StmtV {
    StmtV::Variables(
        VariablesV {
            form: Form::Plain,
            declarators: Seq::empty().push(
                DeclaratorV { pattern: PatternV::Ident(name), init: Some(body) },
            ),
        },
    )
}

/// `<name attrs />`.
pub open spec fn use_v(name: Seq<char>, attrs: Seq<AttrV>) -> ExprV {
    ExprV::Jsx(
        Box::new(
            JsxV::Element {
                start: 0,
                name: NameV::Plain(name),
                closing: None,
                attrs,
                children: Seq::empty(),
            },
        ),
    )
}

/// What was taken out of a tree, from nothing.
pub open spec fn nothing_out() -> ExtractionV {
    ExtractionV { attrs: Seq::empty(), vars: Seq::empty() }
}

/// What stands for a tree: the tree itself where nothing can be taken out of
/// it, else a use of its template, which is declared.
pub open spec fn single_v(jsx: Jsx, desc: Seq<char>, scene: SceneV, st: WalkV) -> (ExprV, WalkV) {
    let (left, out) = jsx_out(jsx, scene.top, nothing_out());
    if out.attrs.len() == 0 {
        (ExprV::Jsx(Box::new(jsx_value(jsx))), st)
    } else {
        let name = free_name(template_base(desc), st.taken);
        (
            use_v(name, out.attrs),
            WalkV {
                taken: st.taken.push(name),
                insertions: st.insertions.push(const_v(name, template_body_v(left, out.vars))),
            },
        )
    }
}

// ---------------------------------------------------------------------------
// Expressions and statements
// ---------------------------------------------------------------------------

/// Where a tree begins.
pub open spec fn jsx_start(jsx: Jsx) -> u32 {
    match jsx {
        Jsx::Element { start, .. } => start,
        Jsx::Fragment { start, .. } => start,
    }
}

/// What an expression becomes: each outermost tree in it is replaced, in the
/// order of the source.
pub open spec fn expr_p(expr: Expr, desc: Seq<char>, scene: SceneV, st: WalkV) -> (ExprV, WalkV)
    decreases expr, 0nat,
{
    match expr {
        Expr::Jsx(jsx) => if is_skipped(scene.source, scene.comments, jsx_start(*jsx)) {
            (expr_value(expr), st)
        } else {
            single_v(*jsx, desc, scene, st)
        },
        Expr::Ident(name) => (ExprV::Ident(name@), st),
        Expr::Text(text) => (ExprV::Text(text@), st),
        Expr::This => (ExprV::This, st),
        Expr::Member { object, property } => {
            let (object, st) = expr_p(*object, desc, scene, st);
            (ExprV::Member { object: Box::new(object), property: property@ }, st)
        },
        Expr::Typeof(inner) => {
            let (inner, st) = expr_p(*inner, desc, scene, st);
            (ExprV::Typeof(Box::new(inner)), st)
        },
        Expr::StrictEquality { left, right } => {
            let (left, st) = expr_p(*left, desc, scene, st);
            let (right, st) = expr_p(*right, desc, scene, st);
            (ExprV::StrictEquality { left: Box::new(left), right: Box::new(right) }, st)
        },
        Expr::Call { form, callee, args } => {
            let (callee, st) = expr_p(*callee, desc, scene, st);
            let (args, st) = args_p(args@, args@.len(), desc, scene, st);
            (ExprV::Call { form, callee: Box::new(callee), args }, st)
        },
        Expr::Arrow { params, expression, body } => {
            let (params, st) = params_p(params, desc, scene, st);
            let (body, st) = stmts_p(body@, body@.len(), desc, scene, st);
            (ExprV::Arrow { params, expression, body }, st)
        },
        Expr::Function(function) => {
            let (function, st) = function_p(function, desc, scene, st);
            (ExprV::Function(function), st)
        },
        Expr::Conditional { test, consequent, alternate } => {
            let (test, st) = expr_p(*test, desc, scene, st);
            let (consequent, st) = expr_p(*consequent, desc, scene, st);
            let (alternate, st) = expr_p(*alternate, desc, scene, st);
            (
                ExprV::Conditional {
                    test: Box::new(test),
                    consequent: Box::new(consequent),
                    alternate: Box::new(alternate),
                },
                st,
            )
        },
        Expr::Logical { form, left, right } => {
            let (left, st) = expr_p(*left, desc, scene, st);
            let (right, st) = expr_p(*right, desc, scene, st);
            (ExprV::Logical { form, left: Box::new(left), right: Box::new(right) }, st)
        },
        Expr::Assign { form, target, value } => {
            let (target, st) = expr_p(*target, desc, scene, st);
            let (value, st) = expr_p(*value, desc, scene, st);
            (ExprV::Assign { form, target: Box::new(target), value: Box::new(value) }, st)
        },
        Expr::Sequence(items) => {
            let (items, st) = exprs_p(items@, items@.len(), desc, scene, st);
            (ExprV::Sequence(items), st)
        },
        Expr::Paren(inner) => {
            let (inner, st) = expr_p(*inner, desc, scene, st);
            (ExprV::Paren(Box::new(inner)), st)
        },
        Expr::Typed { form, expr } => {
            let (expr, st) = expr_p(*expr, desc, scene, st);
            (ExprV::Typed { form, expr: Box::new(expr) }, st)
        },
        Expr::Node { id, parts } => {
            let (parts, st) = parts_p(parts@, parts@.len(), desc, scene, st);
            (ExprV::Node { id, parts }, st)
        },
    }
}

/// What the first `n` expressions become.
pub open spec fn exprs_p(
    items: Seq<Rc<Expr>>,
    n: nat,
    desc: Seq<char>,
    scene: SceneV,
    st: WalkV,
) -> (Seq<ExprV>, WalkV)
    decreases items, n,
{
    if n == 0 || n > items.len() {
        (Seq::empty(), st)
    } else {
        let (before, st) = exprs_p(items, (n - 1) as nat, desc, scene, st);
        let (item, st) = expr_p(*items[n - 1], desc, scene, st);
        (before.push(item), st)
    }
}

/// What an argument becomes.
pub open spec fn arg_p(arg: Arg, desc: Seq<char>, scene: SceneV, st: WalkV) -> (ArgV, WalkV)
    decreases arg, 0nat,
{
    match arg {
        Arg::Expr(expr) => {
            let (expr, st) = expr_p(*expr, desc, scene, st);
            (ArgV::Expr(expr), st)
        },
        Arg::Spread(expr) => {
            let (expr, st) = expr_p(*expr, desc, scene, st);
            (ArgV::Spread(expr), st)
        },
    }
}

/// What the first `n` arguments become.
pub open spec fn args_p(
    items: Seq<Arg>,
    n: nat,
    desc: Seq<char>,
    scene: SceneV,
    st: WalkV,
) -> (Seq<ArgV>, WalkV)
    decreases items, n,
{
    if n == 0 || n > items.len() {
        (Seq::empty(), st)
    } else {
        let (before, st) = args_p(items, (n - 1) as nat, desc, scene, st);
        let (item, st) = arg_p(items[n - 1], desc, scene, st);
        (before.push(item), st)
    }
}

/// What a part of a node becomes.
pub open spec fn part_p(part: Part, desc: Seq<char>, scene: SceneV, st: WalkV) -> (PartV, WalkV)
    decreases part, 0nat,
{
    match part {
        Part::Expr(expr) => {
            let (expr, st) = expr_p(*expr, desc, scene, st);
            (PartV::Expr(expr), st)
        },
        Part::Stmt(stmt) => {
            let (stmt, st) = stmt_p(*stmt, desc, scene, st);
            (PartV::Stmt(stmt), st)
        },
    }
}

/// What the first `n` parts become.
pub open spec fn parts_p(
    items: Seq<Part>,
    n: nat,
    desc: Seq<char>,
    scene: SceneV,
    st: WalkV,
) -> (Seq<PartV>, WalkV)
    decreases items, n,
{
    if n == 0 || n > items.len() {
        (Seq::empty(), st)
    } else {
        let (before, st) = parts_p(items, (n - 1) as nat, desc, scene, st);
        let (item, st) = part_p(items[n - 1], desc, scene, st);
        (before.push(item), st)
    }
}

/// What the parameters of an arrow function become.
pub open spec fn params_p(params: Params, desc: Seq<char>, scene: SceneV, st: WalkV) -> (
    ParamsV,
    WalkV,
)
    decreases params, 0nat,
{
    match params {
        Params::One(name) => (ParamsV::One(name@), st),
        Params::Given { id, parts } => {
            let (parts, st) = parts_p(parts@, parts@.len(), desc, scene, st);
            (ParamsV::Given { id, parts }, st)
        },
    }
}

/// The name of a function, or the name around it.
pub open spec fn name_or(name: Option<String>, desc: Seq<char>) -> Seq<char> {
    match name {
        Some(name) => name@,
        None => desc,
    }
}

/// What the body of a function becomes.
pub open spec fn body_p(
    body: Option<Vec<Rc<Stmt>>>,
    desc: Seq<char>,
    scene: SceneV,
    st: WalkV,
) -> (Option<Seq<StmtV>>, WalkV)
    decreases body, 0nat,
{
    match body {
        None => (None, st),
        Some(body) => {
            let (body, st) = stmts_p(body@, body@.len(), desc, scene, st);
            (Some(body), st)
        },
    }
}

/// What a function becomes.
pub open spec fn function_p(
    function: Function,
    desc: Seq<char>,
    scene: SceneV,
    st: WalkV,
) -> (FunctionV, WalkV)
    decreases function, 0nat,
{
    let desc = name_or(function.name, desc);
    let (params, st) = parts_p(function.params@, function.params@.len(), desc, scene, st);
    let (body, st) = body_p(function.body, desc, scene, st);
    (FunctionV { form: function.form, name: option_text(function.name), params, body }, st)
}

/// What a class becomes.
pub open spec fn class_p(class: Class, desc: Seq<char>, scene: SceneV, st: WalkV) -> (ClassV, WalkV)
    decreases class, 0nat,
{
    let (parts, st) = parts_p(class.parts@, class.parts@.len(), desc, scene, st);
    (ClassV { id: class.id, name: option_text(class.name), parts }, st)
}

/// What an optional expression becomes.
pub open spec fn option_p(expr: Option<Rc<Expr>>, desc: Seq<char>, scene: SceneV, st: WalkV) -> (
    Option<ExprV>,
    WalkV,
)
    decreases expr, 0nat,
{
    match expr {
        None => (None, st),
        Some(expr) => {
            let (expr, st) = expr_p(*expr, desc, scene, st);
            (Some(expr), st)
        },
    }
}

/// What a pattern becomes.
pub open spec fn pattern_p(pattern: Pattern, desc: Seq<char>, scene: SceneV, st: WalkV) -> (
    PatternV,
    WalkV,
)
    decreases pattern, 0nat,
{
    match pattern {
        Pattern::Ident(name) => (PatternV::Ident(name@), st),
        Pattern::Opaque { id, names, parts } => {
            let (parts, st) = parts_p(parts@, parts@.len(), desc, scene, st);
            (PatternV::Opaque { id, names: texts(names@), parts }, st)
        },
    }
}

/// What a declarator becomes.
pub open spec fn declarator_p(item: Declarator, desc: Seq<char>, scene: SceneV, st: WalkV) -> (
    DeclaratorV,
    WalkV,
)
    decreases item, 0nat,
{
    let (pattern, st) = pattern_p(item.pattern, desc, scene, st);
    let (init, st) = option_p(item.init, desc, scene, st);
    (DeclaratorV { pattern, init }, st)
}

/// What the first `n` declarators become.
pub open spec fn declarators_p(
    items: Seq<Declarator>,
    n: nat,
    desc: Seq<char>,
    scene: SceneV,
    st: WalkV,
) -> (Seq<DeclaratorV>, WalkV)
    decreases items, n,
{
    if n == 0 || n > items.len() {
        (Seq::empty(), st)
    } else {
        let (before, st) = declarators_p(items, (n - 1) as nat, desc, scene, st);
        let (item, st) = declarator_p(items[n - 1], desc, scene, st);
        (before.push(item), st)
    }
}

/// What a declaration of variables becomes.
pub open spec fn variables_p(
    variables: Variables,
    desc: Seq<char>,
    scene: SceneV,
    st: WalkV,
) -> (VariablesV, WalkV)
    decreases variables, 0nat,
{
    let (declarators, st) = declarators_p(
        variables.declarators@,
        variables.declarators@.len(),
        desc,
        scene,
        st,
    );
    (VariablesV { form: variables.form, declarators }, st)
}

/// What an exported declaration becomes.
pub open spec fn declaration_p(
    declaration: Declaration,
    desc: Seq<char>,
    scene: SceneV,
    st: WalkV,
) -> (DeclarationV, WalkV)
    decreases declaration, 0nat,
{
    match declaration {
        Declaration::Variables(variables) => {
            let (variables, st) = variables_p(variables, desc, scene, st);
            (DeclarationV::Variables(variables), st)
        },
        Declaration::Function(function) => {
            let (function, st) = function_p(function, desc, scene, st);
            (DeclarationV::Function(function), st)
        },
        Declaration::Class(class) => {
            let (class, st) = class_p(class, desc, scene, st);
            (DeclarationV::Class(class), st)
        },
        Declaration::Node { id, parts } => {
            let (parts, st) = parts_p(parts@, parts@.len(), desc, scene, st);
            (DeclarationV::Node { id, parts }, st)
        },
    }
}

/// What a default export becomes.
pub open spec fn exported_p(exported: Exported, desc: Seq<char>, scene: SceneV, st: WalkV) -> (
    ExportedV,
    WalkV,
)
    decreases exported, 0nat,
{
    match exported {
        Exported::Function(function) => {
            let (function, st) = function_p(function, desc, scene, st);
            (ExportedV::Function(function), st)
        },
        Exported::Class(class) => {
            let (class, st) = class_p(class, desc, scene, st);
            (ExportedV::Class(class), st)
        },
        Exported::Interface(id) => (ExportedV::Interface(id), st),
        Exported::Expr(expr) => {
            let (expr, st) = expr_p(*expr, desc, scene, st);
            (ExportedV::Expr(expr), st)
        },
    }
}

/// What an optional statement becomes.
pub open spec fn other_p(stmt: Option<Rc<Stmt>>, desc: Seq<char>, scene: SceneV, st: WalkV) -> (
    Option<Box<StmtV>>,
    WalkV,
)
    decreases stmt, 0nat,
{
    match stmt {
        None => (None, st),
        Some(stmt) => {
            let (stmt, st) = stmt_p(*stmt, desc, scene, st);
            (Some(Box::new(stmt)), st)
        },
    }
}

/// What a statement becomes.
pub open spec fn stmt_p(stmt: Stmt, desc: Seq<char>, scene: SceneV, st: WalkV) -> (StmtV, WalkV)
    decreases stmt, 0nat,
{
    match stmt {
        Stmt::Variables(variables) => {
            let (variables, st) = variables_p(variables, desc, scene, st);
            (StmtV::Variables(variables), st)
        },
        Stmt::Function(function) => {
            let (function, st) = function_p(function, desc, scene, st);
            (StmtV::Function(function), st)
        },
        Stmt::Class(class) => {
            let (class, st) = class_p(class, desc, scene, st);
            (StmtV::Class(class), st)
        },
        Stmt::ExportNamed { id, declaration: Some(declaration) } => {
            let (declaration, st) = declaration_p(declaration, desc, scene, st);
            (StmtV::ExportNamed { id, declaration: Some(declaration) }, st)
        },
        Stmt::ExportDefault { id, exported } => {
            let (exported, st) = exported_p(exported, desc, scene, st);
            (StmtV::ExportDefault { id, exported }, st)
        },
        Stmt::Expr(expr) => {
            let (expr, st) = expr_p(*expr, desc, scene, st);
            (StmtV::Expr(expr), st)
        },
        Stmt::Return(expr) => {
            let (expr, st) = option_p(expr, desc, scene, st);
            (StmtV::Return(expr), st)
        },
        Stmt::If { test, consequent, alternate } => {
            let (test, st) = expr_p(*test, desc, scene, st);
            let (consequent, st) = stmt_p(*consequent, desc, scene, st);
            let (alternate, st) = other_p(alternate, desc, scene, st);
            (StmtV::If { test, consequent: Box::new(consequent), alternate }, st)
        },
        Stmt::Block(body) => {
            let (body, st) = stmts_p(body@, body@.len(), desc, scene, st);
            (StmtV::Block(body), st)
        },
        Stmt::Node { id, parts } => {
            let (parts, st) = parts_p(parts@, parts@.len(), desc, scene, st);
            (StmtV::Node { id, parts }, st)
        },
        _ => (stmt_value(stmt), st),
    }
}

/// What the first `n` statements become.
pub open spec fn stmts_p(
    items: Seq<Rc<Stmt>>,
    n: nat,
    desc: Seq<char>,
    scene: SceneV,
    st: WalkV,
) -> (Seq<StmtV>, WalkV)
    decreases items, n,
{
    if n == 0 || n > items.len() {
        (Seq::empty(), st)
    } else {
        let (before, st) = stmts_p(items, (n - 1) as nat, desc, scene, st);
        let (item, st) = stmt_p(*items[n - 1], desc, scene, st);
        (before.push(item), st)
    }
}

// ---------------------------------------------------------------------------
// Programs
// ---------------------------------------------------------------------------

/// What a statement of the program becomes, with its templates in front of it.
pub open spec fn root_p(stmt: Stmt, scene: SceneV, taken: Seq<Seq<char>>) -> (
    Seq<StmtV>,
    Seq<Seq<char>>,
) {
    if may_contain_jsx(stmt) {
        let (done, st) = stmt_p(
            stmt,
            descriptive_name(stmt),
            scene,
            WalkV { taken, insertions: Seq::empty() },
        );
        (st.insertions.push(done), st.taken)
    } else {
        (seq![stmt_value(stmt)], taken)
    }
}

/// What the statements from `from` on become, and the names that are taken
/// then.  The last statement chooses its names first.
pub open spec fn tail_p(body: Seq<Rc<Stmt>>, from: nat, scene: SceneV, taken: Seq<Seq<char>>) -> (
    Seq<StmtV>,
    Seq<Seq<char>>,
)
    decreases body.len() - from,
{
    if from >= body.len() {
        (Seq::empty(), taken)
    } else {
        let (behind, taken) = tail_p(body, from + 1, scene, taken);
        let (here, taken) = root_p(*body[from as int], scene, taken);
        (here + behind, taken)
    }
}

/// What a program becomes, and the names that are taken then.
pub open spec fn program_p(
    body: Seq<Rc<Stmt>>,
    source: Seq<char>,
    comments: Seq<Comment>,
    taken: Seq<Seq<char>>,
) -> (Seq<StmtV>, Seq<Seq<char>>) {
    let scene = SceneV { top: top_level_names(body, body.len()), source, comments };
    tail_p(body, 0, scene, taken)
}

// ---------------------------------------------------------------------------
// Code
// ---------------------------------------------------------------------------

impl Walk {
    /// No template yet, with these names taken.
    pub fn new(taken: Vec<String>) -> (walk: Walk)
        ensures
            walk@ == (WalkV { taken: texts(taken@), insertions: Seq::empty() }),
    {
        Walk { taken, insertions: Vec::new() }
    }
}

/// A statement of an expression.
fn expr_stmt(expr: Rc<Expr>) -> (stmt: Rc<Stmt>)
    ensures
        stmt_value(*stmt) == StmtV::Expr(expr_value(*expr)),
{
    Rc::new(Stmt::Expr(expr))
}

/// `return expr`.
fn return_stmt(expr: Rc<Expr>) -> (stmt: Rc<Stmt>)
    ensures
        stmt_value(*stmt) == StmtV::Return(Some(expr_value(*expr))),
{
    let value = Some(expr);
    proof {
        assert(option_value(value) == Some(expr_value(*expr)));
    }
    Rc::new(Stmt::Return(value))
}

/// `const` with these declarators.
fn const_stmt(declarators: Vec<Declarator>) -> (stmt: Rc<Stmt>)
    ensures
        stmt_value(*stmt) == StmtV::Variables(
            VariablesV { form: Form::Plain, declarators: declarator_values(declarators@) },
        ),
{
    let variables = Variables { form: Form::Plain, declarators };
    proof {
        assert(variables_value(variables) == (VariablesV {
            form: Form::Plain,
            declarators: declarator_values(declarators@),
        }));
    }
    Rc::new(Stmt::Variables(variables))
}

/// `<tree>` as an expression.
fn jsx_expr(jsx: Rc<Jsx>) -> (expr: Rc<Expr>)
    ensures
        expr_value(*expr) == ExprV::Jsx(Box::new(jsx_value(*jsx))),
{
    Rc::new(Expr::Jsx(jsx))
}

/// `(_props) => body`.
fn props_arrow(expression: bool, body: Vec<Rc<Stmt>>) -> (expr: Rc<Expr>)
    ensures
        expr_value(*expr) == (ExprV::Arrow {
            params: ParamsV::One("_props"@),
            expression,
            body: stmt_values(body@),
        }),
{
    let params = Params::One(copied("_props"));
    proof {
        assert(params_value(params) == ParamsV::One("_props"@));
    }
    Rc::new(Expr::Arrow { params, expression, body })
}

/// `(_props) => left`, or with directives in braces.
fn template_body(left: Jsx, vars: Vec<Declarator>) -> (expr: Rc<Expr>)
    ensures
        expr_value(*expr) == template_body_v(jsx_value(left), declarator_values(vars@)),
{
    let plain = vars.len() == 0;
    let tree = jsx_expr(Rc::new(left));
    let mut body: Vec<Rc<Stmt>> = Vec::new();
    if plain {
        let whole = expr_stmt(tree);
        body.push(whole);
        proof {
            assert(stmt_values(body@) == Seq::empty().push(stmt_value(*whole)));
        }
    } else {
        let first = const_stmt(vars);
        let second = return_stmt(tree);
        body.push(first);
        body.push(second);
        proof {
            assert(stmt_values(body@) == Seq::empty().push(stmt_value(*first)).push(
                stmt_value(*second),
            ));
        }
    }
    props_arrow(plain, body)
}

/// `const name = body`.
fn const_declaration(name: &str, body: Rc<Expr>) -> (stmt: Rc<Stmt>)
    ensures
        stmt_value(*stmt) == const_v(name@, expr_value(*body)),
{
    let mut declarators: Vec<Declarator> = Vec::new();
    let declarator = one_declarator(name, body);
    declarators.push(declarator);
    proof {
        assert(declarator_values(declarators@) == Seq::empty().push(declarator_value(declarator)));
    }
    const_stmt(declarators)
}

/// `name = init`, in a declaration.
fn one_declarator(name: &str, init: Rc<Expr>) -> (declarator: Declarator)
    ensures
        declarator_value(declarator) == (DeclaratorV {
            pattern: PatternV::Ident(name@),
            init: Some(expr_value(*init)),
        }),
{
    Declarator { pattern: Pattern::Ident(copied(name)), init: Some(init) }
}

/// `<name attrs />`.
fn template_use(name: String, attrs: Vec<Attr>) -> (expr: Rc<Expr>)
    ensures
        expr_value(*expr) == use_v(name@, attr_values(attrs@)),
{
    let children: Vec<Child> = Vec::new();
    let element = Jsx::Element {
        start: 0,
        name: Name::Plain(name),
        closing: None,
        attrs,
        children,
    };
    proof {
        assert(child_values(children@) == Seq::<ChildV>::empty());
        assert(jsx_value(element) == (JsxV::Element {
            start: 0,
            name: NameV::Plain(name@),
            closing: None,
            attrs: attr_values(attrs@),
            children: Seq::empty(),
        }));
    }
    jsx_expr(Rc::new(element))
}

/// The name that a template is made of.
fn name_base(desc: &str) -> (base: String)
    ensures
        base@ == template_base(desc@),
{
    if is_component_ish_name(desc) {
        copied(desc)
    } else {
        joined("JSX_", desc)
    }
}

/// Makes the template of one tree; gives what stands for the tree.
pub fn transform_single_jsx(jsx: &Rc<Jsx>, desc: &str, scene: &Scene, st: &mut Walk) -> (done: Rc<
    Expr,
>)
    ensures
        (expr_value(*done), final(st)@) == single_v(**jsx, desc@, scene@, old(st)@),
{
    let mut out = Extraction::new();
    let left = extract_jsx_expressions(&mut out, &scene.top, jsx);
    if out.attrs.len() == 0 {
        return jsx_expr(share(jsx));
    }
    let name = generate_unique_name(name_base(desc).as_str(), &mut st.taken);
    let Extraction { attrs, vars } = out;
    let body = template_body(left, vars);
    let template = const_declaration(name.as_str(), body);
    st.insertions.push(template);
    template_use(name, attrs)
}

fn start_of(jsx: &Jsx) -> (start: u32)
    ensures
        start == jsx_start(*jsx),
{
    match jsx {
        Jsx::Element { start, .. } => *start,
        Jsx::Fragment { start, .. } => *start,
    }
}

/// Replaces the outermost trees of an expression.
pub fn process_expression_jsx(expr: &Rc<Expr>, desc: &str, scene: &Scene, st: &mut Walk) -> (done:
    Rc<Expr>)
    ensures
        (expr_value(*done), final(st)@) == expr_p(**expr, desc@, scene@, old(st)@),
    decreases **expr, 0nat,
{
    match &**expr {
        Expr::Jsx(jsx) => {
            if should_skip_jsx(start_of(jsx), &scene.comments, &scene.source) {
                share(expr)
            } else {
                transform_single_jsx(jsx, desc, scene, st)
            }
        },
        Expr::Ident(_) => share(expr),
        Expr::Text(_) => share(expr),
        Expr::This => share(expr),
        Expr::Member { object, property } => {
            let object = process_expression_jsx(object, desc, scene, st);
            Rc::new(Expr::Member { object, property: property.clone() })
        },
        Expr::Typeof(inner) => {
            let inner = process_expression_jsx(inner, desc, scene, st);
            Rc::new(Expr::Typeof(inner))
        },
        Expr::StrictEquality { left, right } => {
            let left = process_expression_jsx(left, desc, scene, st);
            let right = process_expression_jsx(right, desc, scene, st);
            Rc::new(Expr::StrictEquality { left, right })
        },
        Expr::Call { form, callee, args } => {
            let callee = process_expression_jsx(callee, desc, scene, st);
            let args = process_arguments(args, desc, scene, st);
            Rc::new(Expr::Call { form: *form, callee, args })
        },
        Expr::Arrow { params, expression, body } => {
            let params = process_params(params, desc, scene, st);
            let body = process_statements(body, desc, scene, st);
            Rc::new(Expr::Arrow { params, expression: *expression, body })
        },
        Expr::Function(function) => {
            let done = process_function(function, desc, scene, st);
            Rc::new(Expr::Function(done))
        },
        Expr::Conditional { test, consequent, alternate } => {
            let test = process_expression_jsx(test, desc, scene, st);
            let consequent = process_expression_jsx(consequent, desc, scene, st);
            let alternate = process_expression_jsx(alternate, desc, scene, st);
            Rc::new(Expr::Conditional { test, consequent, alternate })
        },
        Expr::Logical { form, left, right } => {
            let left = process_expression_jsx(left, desc, scene, st);
            let right = process_expression_jsx(right, desc, scene, st);
            Rc::new(Expr::Logical { form: *form, left, right })
        },
        Expr::Assign { form, target, value } => {
            let target = process_expression_jsx(target, desc, scene, st);
            let value = process_expression_jsx(value, desc, scene, st);
            Rc::new(Expr::Assign { form: *form, target, value })
        },
        Expr::Sequence(items) => {
            let items = process_items(items, desc, scene, st);
            Rc::new(Expr::Sequence(items))
        },
        Expr::Paren(inner) => {
            let inner = process_expression_jsx(inner, desc, scene, st);
            Rc::new(Expr::Paren(inner))
        },
        Expr::Typed { form, expr } => {
            let expr = process_expression_jsx(expr, desc, scene, st);
            Rc::new(Expr::Typed { form: *form, expr })
        },
        Expr::Node { id, parts } => {
            let parts = process_parts(parts, desc, scene, st);
            Rc::new(Expr::Node { id: *id, parts })
        },
    }
}

/// Replaces the trees of a list of expressions.
fn process_items(items: &Vec<Rc<Expr>>, desc: &str, scene: &Scene, st: &mut Walk) -> (done: Vec<Rc<Expr>>)
    ensures
        (expr_values(done@), final(st)@) == exprs_p(items@, items@.len(), desc@, scene@, old(st)@),
    decreases items, 1nat,
{
    let mut done: Vec<Rc<Expr>> = Vec::new();
    let mut i: usize = 0;
    while i < items.len()
        invariant
            i <= items.len(),
            (expr_values(done@), st@) == exprs_p(items@, i as nat, desc@, scene@, old(st)@),
        decreases items.len() - i,
    {
        let item = process_expression_jsx(&items[i], desc, scene, st);
        done.push(item);
        i = i + 1;
    }
    done
}

/// Replaces the trees of a list of arguments.
fn process_arguments(items: &Vec<Arg>, desc: &str, scene: &Scene, st: &mut Walk) -> (done: Vec<Arg>)
    ensures
        (arg_values(done@), final(st)@) == args_p(items@, items@.len(), desc@, scene@, old(st)@),
    decreases items, 1nat,
{
    let mut done: Vec<Arg> = Vec::new();
    let mut i: usize = 0;
    while i < items.len()
        invariant
            i <= items.len(),
            (arg_values(done@), st@) == args_p(items@, i as nat, desc@, scene@, old(st)@),
        decreases items.len() - i,
    {
        let item = process_argument(&items[i], desc, scene, st);
        done.push(item);
        i = i + 1;
    }
    done
}

fn process_argument(arg: &Arg, desc: &str, scene: &Scene, st: &mut Walk) -> (done: Arg)
    ensures
        (arg_value(done), final(st)@) == arg_p(*arg, desc@, scene@, old(st)@),
    decreases arg, 0nat,
{
    match arg {
        Arg::Expr(expr) => {
            let expr = process_expression_jsx(expr, desc, scene, st);
            Arg::Expr(expr)
        },
        Arg::Spread(expr) => {
            let expr = process_expression_jsx(expr, desc, scene, st);
            Arg::Spread(expr)
        },
    }
}

/// Replaces the trees of a list of parts.
fn process_parts(items: &Vec<Part>, desc: &str, scene: &Scene, st: &mut Walk) -> (done: Vec<Part>)
    ensures
        (part_values(done@), final(st)@) == parts_p(items@, items@.len(), desc@, scene@, old(st)@),
    decreases items, 1nat,
{
    let mut done: Vec<Part> = Vec::new();
    let mut i: usize = 0;
    while i < items.len()
        invariant
            i <= items.len(),
            (part_values(done@), st@) == parts_p(items@, i as nat, desc@, scene@, old(st)@),
        decreases items.len() - i,
    {
        let item = process_part(&items[i], desc, scene, st);
        done.push(item);
        i = i + 1;
    }
    done
}

fn process_part(part: &Part, desc: &str, scene: &Scene, st: &mut Walk) -> (done: Part)
    ensures
        (part_value(done), final(st)@) == part_p(*part, desc@, scene@, old(st)@),
    decreases part, 0nat,
{
    match part {
        Part::Expr(expr) => {
            let expr = process_expression_jsx(expr, desc, scene, st);
            Part::Expr(expr)
        },
        Part::Stmt(stmt) => {
            let stmt = process_statement_jsx(stmt, desc, scene, st);
            Part::Stmt(stmt)
        },
    }
}

fn process_params(params: &Params, desc: &str, scene: &Scene, st: &mut Walk) -> (done: Params)
    ensures
        (params_value(done), final(st)@) == params_p(*params, desc@, scene@, old(st)@),
    decreases params, 0nat,
{
    match params {
        Params::One(name) => Params::One(name.clone()),
        Params::Given { id, parts } => {
            let parts = process_parts(parts, desc, scene, st);
            Params::Given { id: *id, parts }
        },
    }
}

fn copied_name_option(name: &Option<String>) -> (copy: Option<String>)
    ensures
        option_text(copy) == option_text(*name),
{
    match name {
        None => None,
        Some(name) => Some(name.clone()),
    }
}

/// Replaces the trees of a function.
fn process_function(function: &Function, desc: &str, scene: &Scene, st: &mut Walk) -> (done:
    Function)
    ensures
        (function_value(done), final(st)@) == function_p(*function, desc@, scene@, old(st)@),
    decreases function, 0nat,
{
    let desc = match &function.name {
        None => desc,
        Some(name) => name.as_str(),
    };
    let params = process_parts(&function.params, desc, scene, st);
    let body = match &function.body {
        None => None,
        Some(body) => {
            let done = process_statements(body, desc, scene, st);
            Some(done)
        },
    };
    Function { form: function.form, name: copied_name_option(&function.name), params, body }
}

/// Replaces the trees of a class.
fn process_class(class: &Class, desc: &str, scene: &Scene, st: &mut Walk) -> (done: Class)
    ensures
        (class_value(done), final(st)@) == class_p(*class, desc@, scene@, old(st)@),
    decreases class, 0nat,
{
    let parts = process_parts(&class.parts, desc, scene, st);
    Class { id: class.id, name: copied_name_option(&class.name), parts }
}

fn process_option(expr: &Option<Rc<Expr>>, desc: &str, scene: &Scene, st: &mut Walk) -> (done:
    Option<Rc<Expr>>)
    ensures
        (option_value(done), final(st)@) == option_p(*expr, desc@, scene@, old(st)@),
    decreases expr, 0nat,
{
    match expr {
        None => None,
        Some(expr) => {
            let done = process_expression_jsx(expr, desc, scene, st);
            Some(done)
        },
    }
}

fn process_pattern(pattern: &Pattern, desc: &str, scene: &Scene, st: &mut Walk) -> (done: Pattern)
    ensures
        (pattern_value(done), final(st)@) == pattern_p(*pattern, desc@, scene@, old(st)@),
    decreases pattern, 0nat,
{
    match pattern {
        Pattern::Ident(name) => Pattern::Ident(name.clone()),
        Pattern::Opaque { id, names, parts } => {
            let parts = process_parts(parts, desc, scene, st);
            Pattern::Opaque { id: *id, names: copied_texts(names), parts }
        },
    }
}

fn process_declarator(item: &Declarator, desc: &str, scene: &Scene, st: &mut Walk) -> (done:
    Declarator)
    ensures
        (declarator_value(done), final(st)@) == declarator_p(*item, desc@, scene@, old(st)@),
    decreases item, 0nat,
{
    let pattern = process_pattern(&item.pattern, desc, scene, st);
    let init = process_option(&item.init, desc, scene, st);
    Declarator { pattern, init }
}

/// Replaces the trees of a list of declarators.
fn process_declarators(items: &Vec<Declarator>, desc: &str, scene: &Scene, st: &mut Walk) -> (done: Vec<Declarator>)
    ensures
        (declarator_values(done@), final(st)@) == declarators_p(items@, items@.len(), desc@, scene@, old(st)@),
    decreases items, 1nat,
{
    let mut done: Vec<Declarator> = Vec::new();
    let mut i: usize = 0;
    while i < items.len()
        invariant
            i <= items.len(),
            (declarator_values(done@), st@) == declarators_p(items@, i as nat, desc@, scene@, old(st)@),
        decreases items.len() - i,
    {
        let item = process_declarator(&items[i], desc, scene, st);
        done.push(item);
        i = i + 1;
    }
    done
}

fn process_variables(variables: &Variables, desc: &str, scene: &Scene, st: &mut Walk) -> (done:
    Variables)
    ensures
        (variables_value(done), final(st)@) == variables_p(*variables, desc@, scene@, old(st)@),
    decreases variables, 0nat,
{
    let declarators = process_declarators(&variables.declarators, desc, scene, st);
    Variables { form: variables.form, declarators }
}

/// Replaces the trees of an exported declaration.
fn process_declaration_jsx(declaration: &Declaration, desc: &str, scene: &Scene, st: &mut Walk) -> (
    done: Declaration)
    ensures
        (declaration_value(done), final(st)@) == declaration_p(
            *declaration,
            desc@,
            scene@,
            old(st)@,
        ),
    decreases declaration, 0nat,
{
    match declaration {
        Declaration::Variables(variables) => {
            let done = process_variables(variables, desc, scene, st);
            Declaration::Variables(done)
        },
        Declaration::Function(function) => {
            let done = process_function(function, desc, scene, st);
            Declaration::Function(done)
        },
        Declaration::Class(class) => {
            let done = process_class(class, desc, scene, st);
            Declaration::Class(done)
        },
        Declaration::Node { id, parts } => {
            let parts = process_parts(parts, desc, scene, st);
            Declaration::Node { id: *id, parts }
        },
    }
}

/// Replaces the trees of a default export.
fn process_exported(exported: &Exported, desc: &str, scene: &Scene, st: &mut Walk) -> (done:
    Exported)
    ensures
        (exported_value(done), final(st)@) == exported_p(*exported, desc@, scene@, old(st)@),
    decreases exported, 0nat,
{
    match exported {
        Exported::Function(function) => {
            let done = process_function(function, desc, scene, st);
            Exported::Function(done)
        },
        Exported::Class(class) => {
            let done = process_class(class, desc, scene, st);
            Exported::Class(done)
        },
        Exported::Interface(id) => Exported::Interface(*id),
        Exported::Expr(expr) => {
            let done = process_expression_jsx(expr, desc, scene, st);
            Exported::Expr(done)
        },
    }
}

/// `if (test) consequent else alternate`.
fn if_stmt(test: Rc<Expr>, consequent: Rc<Stmt>, alternate: Option<Rc<Stmt>>) -> (stmt: Rc<Stmt>)
    ensures
        stmt_value(*stmt) == (StmtV::If {
            test: expr_value(*test),
            consequent: Box::new(stmt_value(*consequent)),
            alternate: other_value(alternate),
        }),
{
    Rc::new(Stmt::If { test, consequent, alternate })
}

fn process_other(stmt: &Option<Rc<Stmt>>, desc: &str, scene: &Scene, st: &mut Walk) -> (done:
    Option<Rc<Stmt>>)
    ensures
        (other_value(done), final(st)@) == other_p(*stmt, desc@, scene@, old(st)@),
    decreases stmt, 0nat,
{
    match stmt {
        None => None,
        Some(stmt) => {
            let done = process_statement_jsx(stmt, desc, scene, st);
            Some(done)
        },
    }
}

/// Replaces the outermost trees of a statement.
pub fn process_statement_jsx(stmt: &Rc<Stmt>, desc: &str, scene: &Scene, st: &mut Walk) -> (done:
    Rc<Stmt>)
    ensures
        (stmt_value(*done), final(st)@) == stmt_p(**stmt, desc@, scene@, old(st)@),
    decreases **stmt, 0nat,
{
    match &**stmt {
        Stmt::Variables(variables) => {
            let done = process_variables(variables, desc, scene, st);
            Rc::new(Stmt::Variables(done))
        },
        Stmt::Function(function) => {
            let done = process_function(function, desc, scene, st);
            Rc::new(Stmt::Function(done))
        },
        Stmt::Class(class) => {
            let done = process_class(class, desc, scene, st);
            Rc::new(Stmt::Class(done))
        },
        Stmt::ExportNamed { id, declaration: Some(declaration) } => {
            let done = process_declaration_jsx(declaration, desc, scene, st);
            Rc::new(Stmt::ExportNamed { id: *id, declaration: Some(done) })
        },
        Stmt::ExportDefault { id, exported } => {
            let done = process_exported(exported, desc, scene, st);
            Rc::new(Stmt::ExportDefault { id: *id, exported: done })
        },
        Stmt::Expr(expr) => {
            let done = process_expression_jsx(expr, desc, scene, st);
            Rc::new(Stmt::Expr(done))
        },
        Stmt::Return(expr) => {
            let done = process_option(expr, desc, scene, st);
            Rc::new(Stmt::Return(done))
        },
        Stmt::If { test, consequent, alternate } => {
            let test = process_expression_jsx(test, desc, scene, st);
            let consequent = process_statement_jsx(consequent, desc, scene, st);
            let alternate = process_other(alternate, desc, scene, st);
            if_stmt(test, consequent, alternate)
        },
        Stmt::Block(body) => {
            let body = process_statements(body, desc, scene, st);
            Rc::new(Stmt::Block(body))
        },
        Stmt::Node { id, parts } => {
            let parts = process_parts(parts, desc, scene, st);
            Rc::new(Stmt::Node { id: *id, parts })
        },
        Stmt::Import { .. } => share(stmt),
        Stmt::ExportNamed { .. } => share(stmt),
        Stmt::Bare(_) => share(stmt),
    }
}

/// Replaces the trees of a list of statements.
fn process_statements(items: &Vec<Rc<Stmt>>, desc: &str, scene: &Scene, st: &mut Walk) -> (done: Vec<Rc<Stmt>>)
    ensures
        (stmt_values(done@), final(st)@) == stmts_p(items@, items@.len(), desc@, scene@, old(st)@),
    decreases items, 1nat,
{
    let mut done: Vec<Rc<Stmt>> = Vec::new();
    let mut i: usize = 0;
    while i < items.len()
        invariant
            i <= items.len(),
            (stmt_values(done@), st@) == stmts_p(items@, i as nat, desc@, scene@, old(st)@),
        decreases items.len() - i,
    {
        let item = process_statement_jsx(&items[i], desc, scene, st);
        done.push(item);
        i = i + 1;
    }
    done
}

/// Replaces the trees of a statement of the program; gives the templates and
/// the statement behind them.
fn find_and_transform_jsx_in_statement(stmt: &Rc<Stmt>, scene: &Scene, taken: Vec<String>) -> (done:
    (Vec<Rc<Stmt>>, Vec<String>))
    ensures
        (stmt_values(done.0@), texts(done.1@)) == root_p(**stmt, scene@, texts(taken@)),
{
    if !statement_may_contain_jsx(stmt) {
        let mut here: Vec<Rc<Stmt>> = Vec::new();
        here.push(share(stmt));
        proof {
            assert(stmt_values(here@) =~= seq![stmt_value(**stmt)]);
        }
        return (here, taken);
    }
    let desc = get_descriptive_name_from_statement(stmt);
    let mut st = Walk::new(taken);
    let done = process_statement_jsx(stmt, desc.as_str(), scene, &mut st);
    let Walk { taken, insertions } = st;
    let mut here = insertions;
    here.push(done);
    (here, taken)
}

/// Replaces every JSX tree of a program by a use of its template, and declares
/// the templates in front of the statements.  `taken` are the names that are
/// in use; those of the templates are added.
pub fn transform_all_jsx(
    body: &Vec<Rc<Stmt>>,
    source: &str,
    comments: &Vec<Comment>,
    taken: Vec<String>,
) -> (done: (Vec<Rc<Stmt>>, Vec<String>))
    ensures
        (stmt_values(done.0@), texts(done.1@)) == program_p(
            body@,
            source@,
            comments@,
            texts(taken@),
        ),
{
    let scene = Scene {
        top: collect_top_level_names(body),
        source: chars_of(source),
        comments: copied_comments(comments),
    };
    let mut done: Vec<Rc<Stmt>> = Vec::new();
    let mut names = taken;
    let mut at: usize = body.len();
    while at > 0
        invariant
            at <= body.len(),
            (stmt_values(done@), texts(names@)) == tail_p(
                body@,
                at as nat,
                scene@,
                texts(taken@),
            ),
        decreases at,
    {
        at = at - 1;
        let (here, after) = find_and_transform_jsx_in_statement(&body[at], &scene, names);
        let ghost front = here@;
        let ghost behind = done@;
        let mut here = here;
        here.append(&mut done);
        proof {
            assert(stmt_values(here@) =~= stmt_values(front) + stmt_values(behind));
        }
        done = here;
        names = after;
    }
    (done, names)
}

fn copied_comments(comments: &Vec<Comment>) -> (copy: Vec<Comment>)
    ensures
        copy@ == comments@,
{
    let mut copy: Vec<Comment> = Vec::new();
    let mut i: usize = 0;
    while i < comments.len()
        invariant
            i <= comments.len(),
            copy@ == comments@.take(i as int),
        decreases comments.len() - i,
    {
        copy.push(comments[i]);
        i = i + 1;
        proof {
            assert(copy@ =~= comments@.take(i as int));
        }
    }
    proof {
        assert(comments@.take(comments@.len() as int) =~= comments@);
    }
    copy
}

} // verus!
