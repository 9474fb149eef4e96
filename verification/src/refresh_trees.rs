//! The JSX trees of a program that lie in no other tree, in the order of the
//! source: in a program as it is given, and in what it becomes.

use crate::refresh_tree::{
    Arg, ArgV, Class, ClassV, Declaration, DeclarationV, Declarator, DeclaratorV, Exported,
    ExportedV, Expr, ExprV, Function, FunctionV, Jsx, JsxV, Params, ParamsV, Part, PartV, Pattern,
    PatternV, Stmt, StmtV, Variables, VariablesV,
};
use std::rc::Rc;
use vstd::prelude::*;

verus! {

// ---------------------------------------------------------------------------
// As given
// ---------------------------------------------------------------------------

/// The trees of an expression.
pub open spec fn expr_trees(expr: Expr) -> Seq<Jsx>
    decreases expr, 0nat,
{
    match expr {
        Expr::Jsx(jsx) => seq![*jsx],
        Expr::Member { object, .. } => expr_trees(*object),
        Expr::Typeof(inner) => expr_trees(*inner),
        Expr::StrictEquality { left, right } => expr_trees(*left) + expr_trees(*right),
        Expr::Call { callee, args, .. } => expr_trees(*callee) + args_trees(args@, args@.len()),
        Expr::Arrow { params, body, .. } => params_trees(params) + stmts_trees(body@, body@.len()),
        Expr::Function(function) => function_trees(function),
        Expr::Conditional { test, consequent, alternate } => expr_trees(*test) + expr_trees(*consequent)
            + expr_trees(*alternate),
        Expr::Logical { left, right, .. } => expr_trees(*left) + expr_trees(*right),
        Expr::Assign { target, value, .. } => expr_trees(*target) + expr_trees(*value),
        Expr::Sequence(items) => exprs_trees(items@, items@.len()),
        Expr::Paren(inner) => expr_trees(*inner),
        Expr::Typed { expr, .. } => expr_trees(*expr),
        Expr::Node { parts, .. } => parts_trees(parts@, parts@.len()),
        _ => Seq::empty(),
    }
}

/// The trees of the first `n` expressions.
pub open spec fn exprs_trees(items: Seq<Rc<Expr>>, n: nat) -> Seq<Jsx>
    decreases items, n,
{
    if n == 0 || n > items.len() {
        Seq::empty()
    } else {
        exprs_trees(items, (n - 1) as nat) + expr_trees(*items[n - 1])
    }
}

/// The trees of the first `n` arguments.
pub open spec fn args_trees(items: Seq<Arg>, n: nat) -> Seq<Jsx>
    decreases items, n,
{
    if n == 0 || n > items.len() {
        Seq::empty()
    } else {
        args_trees(items, (n - 1) as nat) + arg_trees(items[n - 1])
    }
}

/// The trees of the first `n` parts.
pub open spec fn parts_trees(items: Seq<Part>, n: nat) -> Seq<Jsx>
    decreases items, n,
{
    if n == 0 || n > items.len() {
        Seq::empty()
    } else {
        parts_trees(items, (n - 1) as nat) + part_trees(items[n - 1])
    }
}

/// The trees of the first `n` declarators.
pub open spec fn declarators_trees(items: Seq<Declarator>, n: nat) -> Seq<Jsx>
    decreases items, n,
{
    if n == 0 || n > items.len() {
        Seq::empty()
    } else {
        declarators_trees(items, (n - 1) as nat) + declarator_trees(items[n - 1])
    }
}

/// The trees of the first `n` statements.
pub open spec fn stmts_trees(items: Seq<Rc<Stmt>>, n: nat) -> Seq<Jsx>
    decreases items, n,
{
    if n == 0 || n > items.len() {
        Seq::empty()
    } else {
        stmts_trees(items, (n - 1) as nat) + stmt_trees(*items[n - 1])
    }
}

/// The trees of an argument.
pub open spec fn arg_trees(arg: Arg) -> Seq<Jsx>
    decreases arg, 0nat,
{
    match arg {
        Arg::Expr(expr) => expr_trees(*expr),
        Arg::Spread(expr) => expr_trees(*expr),
    }
}

/// The trees of a part.
pub open spec fn part_trees(part: Part) -> Seq<Jsx>
    decreases part, 0nat,
{
    match part {
        Part::Expr(expr) => expr_trees(*expr),
        Part::Stmt(stmt) => stmt_trees(*stmt),
    }
}

/// The trees of parameters.
pub open spec fn params_trees(params: Params) -> Seq<Jsx>
    decreases params, 0nat,
{
    match params {
        Params::One(_) => Seq::empty(),
        Params::Given { parts, .. } => parts_trees(parts@, parts@.len()),
    }
}

/// The trees of the body of a function.
pub open spec fn body_trees(body: Option<Vec<Rc<Stmt>>>) -> Seq<Jsx>
    decreases body, 0nat,
{
    match body {
        None => Seq::empty(),
        Some(body) => stmts_trees(body@, body@.len()),
    }
}

/// The trees of an optional expression.
pub open spec fn option_trees(expr: Option<Rc<Expr>>) -> Seq<Jsx>
    decreases expr, 0nat,
{
    match expr {
        None => Seq::empty(),
        Some(expr) => expr_trees(*expr),
    }
}

/// The trees of an optional statement.
pub open spec fn other_trees(stmt: Option<Rc<Stmt>>) -> Seq<Jsx>
    decreases stmt, 0nat,
{
    match stmt {
        None => Seq::empty(),
        Some(stmt) => stmt_trees(*stmt),
    }
}

/// The trees of a function.
pub open spec fn function_trees(function: Function) -> Seq<Jsx>
    decreases function, 0nat,
{
    parts_trees(function.params@, function.params@.len()) + body_trees(function.body)
}

/// The trees of a class.
pub open spec fn class_trees(class: Class) -> Seq<Jsx>
    decreases class, 0nat,
{
    parts_trees(class.parts@, class.parts@.len())
}

/// The trees of a pattern.
pub open spec fn pattern_trees(pattern: Pattern) -> Seq<Jsx>
    decreases pattern, 0nat,
{
    match pattern {
        Pattern::Ident(_) => Seq::empty(),
        Pattern::Opaque { parts, .. } => parts_trees(parts@, parts@.len()),
    }
}

/// The trees of a declarator.
pub open spec fn declarator_trees(declarator: Declarator) -> Seq<Jsx>
    decreases declarator, 0nat,
{
    pattern_trees(declarator.pattern) + option_trees(declarator.init)
}

/// The trees of a declaration of variables.
pub open spec fn variables_trees(variables: Variables) -> Seq<Jsx>
    decreases variables, 0nat,
{
    declarators_trees(variables.declarators@, variables.declarators@.len())
}

/// The trees of an exported declaration.
pub open spec fn declaration_trees(declaration: Declaration) -> Seq<Jsx>
    decreases declaration, 0nat,
{
    match declaration {
        Declaration::Variables(variables) => variables_trees(variables),
        Declaration::Function(function) => function_trees(function),
        Declaration::Class(class) => class_trees(class),
        Declaration::Node { parts, .. } => parts_trees(parts@, parts@.len()),
    }
}

/// The trees of a default export.
pub open spec fn exported_trees(exported: Exported) -> Seq<Jsx>
    decreases exported, 0nat,
{
    match exported {
        Exported::Function(function) => function_trees(function),
        Exported::Class(class) => class_trees(class),
        Exported::Interface(_) => Seq::empty(),
        Exported::Expr(expr) => expr_trees(*expr),
    }
}

/// The trees of a statement.
pub open spec fn stmt_trees(stmt: Stmt) -> Seq<Jsx>
    decreases stmt, 0nat,
{
    match stmt {
        Stmt::Variables(variables) => variables_trees(variables),
        Stmt::Function(function) => function_trees(function),
        Stmt::Class(class) => class_trees(class),
        Stmt::ExportNamed { declaration: Some(declaration), .. } => declaration_trees(
            declaration,
        ),
        Stmt::ExportDefault { exported, .. } => exported_trees(exported),
        Stmt::Expr(expr) => expr_trees(*expr),
        Stmt::Return(expr) => option_trees(expr),
        Stmt::If { test, consequent, alternate } => expr_trees(*test) + stmt_trees(*consequent)
            + other_trees(alternate),
        Stmt::Block(body) => stmts_trees(body@, body@.len()),
        Stmt::Node { parts, .. } => parts_trees(parts@, parts@.len()),
        _ => Seq::empty(),
    }
}

// ---------------------------------------------------------------------------
// As a value
// ---------------------------------------------------------------------------

/// The trees of an expression.
pub open spec fn expr_left(expr: ExprV) -> Seq<JsxV>
    decreases expr,
{
    match expr {
        ExprV::Jsx(jsx) => seq![*jsx],
        ExprV::Member { object, .. } => expr_left(*object),
        ExprV::Typeof(inner) => expr_left(*inner),
        ExprV::StrictEquality { left, right } => expr_left(*left) + expr_left(*right),
        ExprV::Call { callee, args, .. } => expr_left(*callee) + args_left(args),
        ExprV::Arrow { params, body, .. } => params_left(params) + stmts_left(body),
        ExprV::Function(function) => function_left(function),
        ExprV::Conditional { test, consequent, alternate } => expr_left(*test) + expr_left(*consequent)
            + expr_left(*alternate),
        ExprV::Logical { left, right, .. } => expr_left(*left) + expr_left(*right),
        ExprV::Assign { target, value, .. } => expr_left(*target) + expr_left(*value),
        ExprV::Sequence(items) => exprs_left(items),
        ExprV::Paren(inner) => expr_left(*inner),
        ExprV::Typed { expr, .. } => expr_left(*expr),
        ExprV::Node { parts, .. } => parts_left(parts),
        _ => Seq::empty(),
    }
}

/// The trees of these expressions.
pub open spec fn exprs_left(items: Seq<ExprV>) -> Seq<JsxV>
    decreases items,
{
    if items.len() == 0 {
        Seq::empty()
    } else {
        exprs_left(items.subrange(0, items.len() - 1)) + expr_left(items[items.len() - 1])
    }
}

/// The trees of these arguments.
pub open spec fn args_left(items: Seq<ArgV>) -> Seq<JsxV>
    decreases items,
{
    if items.len() == 0 {
        Seq::empty()
    } else {
        args_left(items.subrange(0, items.len() - 1)) + arg_left(items[items.len() - 1])
    }
}

/// The trees of these parts.
pub open spec fn parts_left(items: Seq<PartV>) -> Seq<JsxV>
    decreases items,
{
    if items.len() == 0 {
        Seq::empty()
    } else {
        parts_left(items.subrange(0, items.len() - 1)) + part_left(items[items.len() - 1])
    }
}

/// The trees of these declarators.
pub open spec fn declarators_left(items: Seq<DeclaratorV>) -> Seq<JsxV>
    decreases items,
{
    if items.len() == 0 {
        Seq::empty()
    } else {
        declarators_left(items.subrange(0, items.len() - 1)) + declarator_left(items[items.len() - 1])
    }
}

/// The trees of these statements.
pub open spec fn stmts_left(items: Seq<StmtV>) -> Seq<JsxV>
    decreases items,
{
    if items.len() == 0 {
        Seq::empty()
    } else {
        stmts_left(items.subrange(0, items.len() - 1)) + stmt_left(items[items.len() - 1])
    }
}

/// The trees of an argument.
pub open spec fn arg_left(arg: ArgV) -> Seq<JsxV>
    decreases arg,
{
    match arg {
        ArgV::Expr(expr) => expr_left(expr),
        ArgV::Spread(expr) => expr_left(expr),
    }
}

/// The trees of a part.
pub open spec fn part_left(part: PartV) -> Seq<JsxV>
    decreases part,
{
    match part {
        PartV::Expr(expr) => expr_left(expr),
        PartV::Stmt(stmt) => stmt_left(stmt),
    }
}

/// The trees of parameters.
pub open spec fn params_left(params: ParamsV) -> Seq<JsxV>
    decreases params,
{
    match params {
        ParamsV::One(_) => Seq::empty(),
        ParamsV::Given { parts, .. } => parts_left(parts),
    }
}

/// The trees of the body of a function.
pub open spec fn body_left(body: Option<Seq<StmtV>>) -> Seq<JsxV>
    decreases body,
{
    match body {
        None => Seq::empty(),
        Some(body) => stmts_left(body),
    }
}

/// The trees of an optional expression.
pub open spec fn option_left(expr: Option<ExprV>) -> Seq<JsxV>
    decreases expr,
{
    match expr {
        None => Seq::empty(),
        Some(expr) => expr_left(expr),
    }
}

/// The trees of an optional statement.
pub open spec fn other_left(stmt: Option<Box<StmtV>>) -> Seq<JsxV>
    decreases stmt,
{
    match stmt {
        None => Seq::empty(),
        Some(stmt) => stmt_left(*stmt),
    }
}

/// The trees of a function.
pub open spec fn function_left(function: FunctionV) -> Seq<JsxV>
    decreases function,
{
    parts_left(function.params) + body_left(function.body)
}

/// The trees of a class.
pub open spec fn class_left(class: ClassV) -> Seq<JsxV>
    decreases class,
{
    parts_left(class.parts)
}

/// The trees of a pattern.
pub open spec fn pattern_left(pattern: PatternV) -> Seq<JsxV>
    decreases pattern,
{
    match pattern {
        PatternV::Ident(_) => Seq::empty(),
        PatternV::Opaque { parts, .. } => parts_left(parts),
    }
}

/// The trees of a declarator.
pub open spec fn declarator_left(declarator: DeclaratorV) -> Seq<JsxV>
    decreases declarator,
{
    pattern_left(declarator.pattern) + option_left(declarator.init)
}

/// The trees of a declaration of variables.
pub open spec fn variables_left(variables: VariablesV) -> Seq<JsxV>
    decreases variables,
{
    declarators_left(variables.declarators)
}

/// The trees of an exported declaration.
pub open spec fn declaration_left(declaration: DeclarationV) -> Seq<JsxV>
    decreases declaration,
{
    match declaration {
        DeclarationV::Variables(variables) => variables_left(variables),
        DeclarationV::Function(function) => function_left(function),
        DeclarationV::Class(class) => class_left(class),
        DeclarationV::Node { parts, .. } => parts_left(parts),
    }
}

/// The trees of a default export.
pub open spec fn exported_left(exported: ExportedV) -> Seq<JsxV>
    decreases exported,
{
    match exported {
        ExportedV::Function(function) => function_left(function),
        ExportedV::Class(class) => class_left(class),
        ExportedV::Interface(_) => Seq::empty(),
        ExportedV::Expr(expr) => expr_left(expr),
    }
}

/// The trees of a statement.
pub open spec fn stmt_left(stmt: StmtV) -> Seq<JsxV>
    decreases stmt,
{
    match stmt {
        StmtV::Variables(variables) => variables_left(variables),
        StmtV::Function(function) => function_left(function),
        StmtV::Class(class) => class_left(class),
        StmtV::ExportNamed { declaration: Some(declaration), .. } => declaration_left(
            declaration,
        ),
        StmtV::ExportDefault { exported, .. } => exported_left(exported),
        StmtV::Expr(expr) => expr_left(expr),
        StmtV::Return(expr) => option_left(expr),
        StmtV::If { test, consequent, alternate } => expr_left(test) + stmt_left(*consequent)
            + other_left(alternate),
        StmtV::Block(body) => stmts_left(body),
        StmtV::Node { parts, .. } => parts_left(parts),
        _ => Seq::empty(),
    }
}

} // verus!
