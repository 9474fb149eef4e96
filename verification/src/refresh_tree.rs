//! The programs that the refresh transform reads and writes.
//!
//! A program holds what the transform looks at.  What it only carries along is
//! a number: it stands for the thing in the table of whoever made the program.
//!
//! The types whose names end in `V` are the mathematical values of the trees.

use crate::ast::option_text;
use crate::text::texts;
use std::rc::Rc;
use vstd::prelude::*;

verus! {

/// What a node carries besides its parts: nothing beyond the plain form, or
/// what the number stands for.
#[derive(Clone, Copy, Debug, PartialEq, Eq, Structural)]
pub enum Form {
    Plain,
    Given(u32),
}

/// `a.b`, `this.a.b` and so on, as the name of a JSX element.
#[derive(Debug)]
pub struct MemberName {
    pub object: NameObject,
    pub property: String,
}

#[derive(Debug)]
pub enum NameObject {
    Ident(String),
    Member(Rc<MemberName>),
    This,
}

/// The name of a JSX element: an element of the platform, a reference to a
/// component, a path to one, or one that is carried along.
#[derive(Debug)]
pub enum Name {
    Plain(String),
    Reference(String),
    Member(Rc<MemberName>),
    Opaque(u32),
}

#[derive(Debug)]
pub enum AttrName {
    Ident(String),
    Namespaced { namespace: String, name: String },
}

#[derive(Debug)]
pub enum AttrValue {
    Absent,
    /// A string.
    Text(u32),
    /// `{expr}`, or `{}`.
    Container(Option<Rc<Expr>>),
    Jsx(Rc<Jsx>),
}

#[derive(Debug)]
pub enum Attr {
    Named { name: AttrName, value: AttrValue },
    Spread(Rc<Expr>),
}

/// A JSX element or fragment; `start` is where it begins in the source.
#[derive(Debug)]
#[allow(inconsistent_fields)]
pub enum Jsx {
    Element {
        start: u32,
        name: Name,
        /// The name in the closing tag, where there is one.
        closing: Option<Name>,
        attrs: Vec<Attr>,
        children: Vec<Child>,
    },
    Fragment { start: u32, children: Vec<Child> },
}

#[derive(Debug)]
pub enum Child {
    Text(u32),
    Jsx(Rc<Jsx>),
    Container(Option<Rc<Expr>>),
    Spread(Rc<Expr>),
}

/// A part of a node: what is carried along around the parts is the node's
/// number.
#[derive(Debug)]
pub enum Part {
    Expr(Rc<Expr>),
    Stmt(Rc<Stmt>),
}

/// The parameters of an arrow function: one name, or what the number stands
/// for around these parts.
#[derive(Debug)]
pub enum Params {
    One(String),
    Given { id: u32, parts: Vec<Part> },
}

#[derive(Debug)]
pub enum Arg {
    Expr(Rc<Expr>),
    Spread(Rc<Expr>),
}

#[derive(Debug)]
#[allow(inconsistent_fields)]
pub enum Expr {
    Jsx(Rc<Jsx>),
    Ident(String),
    Text(String),
    This,
    Member { object: Rc<Expr>, property: String },
    Typeof(Rc<Expr>),
    StrictEquality { left: Rc<Expr>, right: Rc<Expr> },
    Call { form: Form, callee: Rc<Expr>, args: Vec<Arg> },
    Arrow { params: Params, expression: bool, body: Vec<Rc<Stmt>> },
    Function(Function),
    Conditional { test: Rc<Expr>, consequent: Rc<Expr>, alternate: Rc<Expr> },
    Logical { form: Form, left: Rc<Expr>, right: Rc<Expr> },
    /// `target = value`, or a compound assignment.
    Assign { form: Form, target: Rc<Expr>, value: Rc<Expr> },
    Sequence(Vec<Rc<Expr>>),
    Paren(Rc<Expr>),
    /// A cast, an assertion or another wrapper of the types.
    Typed { form: Form, expr: Rc<Expr> },
    /// Any other expression: an array, an object, a class and so on, with the
    /// expressions and statements in it, in the order of the source.
    Node { id: u32, parts: Vec<Part> },
}

/// A function, with the expressions in its parameters.
#[derive(Debug)]
pub struct Function {
    pub form: Form,
    pub name: Option<String>,
    pub params: Vec<Part>,
    pub body: Option<Vec<Rc<Stmt>>>,
}

/// A class, with what lies in its heritage, its keys, its values and its
/// methods.
#[derive(Debug)]
pub struct Class {
    pub id: u32,
    pub name: Option<String>,
    pub parts: Vec<Part>,
}

/// A name, or a pattern with the names that it binds and the expressions in it.
#[derive(Debug)]
#[allow(inconsistent_fields)]
pub enum Pattern {
    Ident(String),
    Opaque { id: u32, names: Vec<String>, parts: Vec<Part> },
}

#[derive(Debug)]
pub struct Declarator {
    pub pattern: Pattern,
    pub init: Option<Rc<Expr>>,
}

/// A declaration of variables; the plain form is `const`.
#[derive(Debug)]
pub struct Variables {
    pub form: Form,
    pub declarators: Vec<Declarator>,
}

/// What an `export` declares.
#[derive(Debug)]
pub enum Declaration {
    Variables(Variables),
    Function(Function),
    Class(Class),
    Node { id: u32, parts: Vec<Part> },
}

/// What an `export default` exports.
#[derive(Debug)]
pub enum Exported {
    Function(Function),
    Class(Class),
    Interface(u32),
    Expr(Rc<Expr>),
}

#[derive(Debug)]
#[allow(inconsistent_fields)]
pub enum Stmt {
    /// An import with the names that it binds.
    Import { id: u32, locals: Vec<String> },
    Variables(Variables),
    Function(Function),
    Class(Class),
    ExportNamed { id: u32, declaration: Option<Declaration> },
    ExportDefault { id: u32, exported: Exported },
    Expr(Rc<Expr>),
    Return(Option<Rc<Expr>>),
    If { test: Rc<Expr>, consequent: Rc<Stmt>, alternate: Option<Rc<Stmt>> },
    Block(Vec<Rc<Stmt>>),
    /// An empty statement, a `break`, a `continue` or a `debugger`.
    Bare(u32),
    /// Any other statement: a loop, a `switch`, a `try` and so on, with the
    /// expressions and statements in it, in the order of the source.
    Node { id: u32, parts: Vec<Part> },
}

// ---------------------------------------------------------------------------
// Values
// ---------------------------------------------------------------------------

pub ghost struct MemberNameV {
    pub object: NameObjectV,
    pub property: Seq<char>,
}

pub ghost enum NameObjectV {
    Ident(Seq<char>),
    Member(Box<MemberNameV>),
    This,
}

pub ghost enum NameV {
    Plain(Seq<char>),
    Reference(Seq<char>),
    Member(MemberNameV),
    Opaque(u32),
}

pub ghost enum AttrNameV {
    Ident(Seq<char>),
    Namespaced { namespace: Seq<char>, name: Seq<char> },
}

pub ghost enum AttrValueV {
    Absent,
    Text(u32),
    Container(Option<ExprV>),
    Jsx(JsxV),
}

pub ghost enum AttrV {
    Named { name: AttrNameV, value: AttrValueV },
    Spread(ExprV),
}

#[allow(inconsistent_fields)]
pub ghost enum JsxV {
    Element {
        start: u32,
        name: NameV,
        closing: Option<NameV>,
        attrs: Seq<AttrV>,
        children: Seq<ChildV>,
    },
    Fragment { start: u32, children: Seq<ChildV> },
}

pub ghost enum ChildV {
    Text(u32),
    Jsx(JsxV),
    Container(Option<ExprV>),
    Spread(ExprV),
}

pub ghost enum PartV {
    Expr(ExprV),
    Stmt(StmtV),
}

pub ghost enum ParamsV {
    One(Seq<char>),
    Given { id: u32, parts: Seq<PartV> },
}

pub ghost enum ArgV {
    Expr(ExprV),
    Spread(ExprV),
}

#[allow(inconsistent_fields)]
pub ghost enum ExprV {
    Jsx(Box<JsxV>),
    Ident(Seq<char>),
    Text(Seq<char>),
    This,
    Member { object: Box<ExprV>, property: Seq<char> },
    Typeof(Box<ExprV>),
    StrictEquality { left: Box<ExprV>, right: Box<ExprV> },
    Call { form: Form, callee: Box<ExprV>, args: Seq<ArgV> },
    Arrow { params: ParamsV, expression: bool, body: Seq<StmtV> },
    Function(FunctionV),
    Conditional { test: Box<ExprV>, consequent: Box<ExprV>, alternate: Box<ExprV> },
    Logical { form: Form, left: Box<ExprV>, right: Box<ExprV> },
    Assign { form: Form, target: Box<ExprV>, value: Box<ExprV> },
    Sequence(Seq<ExprV>),
    Paren(Box<ExprV>),
    Typed { form: Form, expr: Box<ExprV> },
    Node { id: u32, parts: Seq<PartV> },
}

pub ghost struct FunctionV {
    pub form: Form,
    pub name: Option<Seq<char>>,
    pub params: Seq<PartV>,
    pub body: Option<Seq<StmtV>>,
}

pub ghost struct ClassV {
    pub id: u32,
    pub name: Option<Seq<char>>,
    pub parts: Seq<PartV>,
}

#[allow(inconsistent_fields)]
pub ghost enum PatternV {
    Ident(Seq<char>),
    Opaque { id: u32, names: Seq<Seq<char>>, parts: Seq<PartV> },
}

pub ghost struct DeclaratorV {
    pub pattern: PatternV,
    pub init: Option<ExprV>,
}

pub ghost struct VariablesV {
    pub form: Form,
    pub declarators: Seq<DeclaratorV>,
}

pub ghost enum DeclarationV {
    Variables(VariablesV),
    Function(FunctionV),
    Class(ClassV),
    Node { id: u32, parts: Seq<PartV> },
}

pub ghost enum ExportedV {
    Function(FunctionV),
    Class(ClassV),
    Interface(u32),
    Expr(ExprV),
}

#[allow(inconsistent_fields)]
pub ghost enum StmtV {
    Import { id: u32, locals: Seq<Seq<char>> },
    Variables(VariablesV),
    Function(FunctionV),
    Class(ClassV),
    ExportNamed { id: u32, declaration: Option<DeclarationV> },
    ExportDefault { id: u32, exported: ExportedV },
    Expr(ExprV),
    Return(Option<ExprV>),
    If { test: ExprV, consequent: Box<StmtV>, alternate: Option<Box<StmtV>> },
    Block(Seq<StmtV>),
    Bare(u32),
    Node { id: u32, parts: Seq<PartV> },
}

pub open spec fn member_name_value(name: MemberName) -> MemberNameV
    decreases name,
{
    MemberNameV {
        object: match name.object {
            NameObject::Ident(text) => NameObjectV::Ident(text@),
            NameObject::Member(inner) => NameObjectV::Member(Box::new(member_name_value(*inner))),
            NameObject::This => NameObjectV::This,
        },
        property: name.property@,
    }
}

impl View for MemberName {
    type V = MemberNameV;

    open spec fn view(&self) -> MemberNameV {
        member_name_value(*self)
    }
}

impl View for Name {
    type V = NameV;

    open spec fn view(&self) -> NameV {
        match *self {
            Name::Plain(text) => NameV::Plain(text@),
            Name::Reference(text) => NameV::Reference(text@),
            Name::Member(member) => NameV::Member(member@),
            Name::Opaque(id) => NameV::Opaque(id),
        }
    }
}

/// The value of an optional name.
pub open spec fn option_name(name: Option<Name>) -> Option<NameV> {
    match name {
        None => None,
        Some(name) => Some(name@),
    }
}

impl View for AttrName {
    type V = AttrNameV;

    open spec fn view(&self) -> AttrNameV {
        match *self {
            AttrName::Ident(text) => AttrNameV::Ident(text@),
            AttrName::Namespaced { namespace, name } => AttrNameV::Namespaced {
                namespace: namespace@,
                name: name@,
            },
        }
    }
}

pub open spec fn part_value(part: Part) -> PartV
    decreases part,
{
    match part {
        Part::Expr(expr) => PartV::Expr(expr_value(*expr)),
        Part::Stmt(stmt) => PartV::Stmt(stmt_value(*stmt)),
    }
}

pub open spec fn part_values(items: Seq<Part>) -> Seq<PartV>
    decreases items,
{
    Seq::new(
        items.len(),
        |i: int|
            if 0 <= i < items.len() {
                part_value(items[i])
            } else {
                arbitrary()
            },
    )
}

pub open spec fn params_value(params: Params) -> ParamsV
    decreases params,
{
    match params {
        Params::One(name) => ParamsV::One(name@),
        Params::Given { id, parts } => ParamsV::Given { id, parts: part_values(parts@) },
    }
}

pub open spec fn pattern_value(pattern: Pattern) -> PatternV
    decreases pattern,
{
    match pattern {
        Pattern::Ident(name) => PatternV::Ident(name@),
        Pattern::Opaque { id, names, parts } => PatternV::Opaque {
            id,
            names: texts(names@),
            parts: part_values(parts@),
        },
    }
}

pub open spec fn class_value(class: Class) -> ClassV
    decreases class,
{
    ClassV { id: class.id, name: option_text(class.name), parts: part_values(class.parts@) }
}

pub open spec fn attr_value(attr: Attr) -> AttrV
    decreases attr,
{
    match attr {
        Attr::Named { name, value } => AttrV::Named {
            name: name@,
            value: match value {
                AttrValue::Absent => AttrValueV::Absent,
                AttrValue::Text(id) => AttrValueV::Text(id),
                AttrValue::Container(expr) => AttrValueV::Container(option_value(expr)),
                AttrValue::Jsx(jsx) => AttrValueV::Jsx(jsx_value(*jsx)),
            },
        },
        Attr::Spread(expr) => AttrV::Spread(expr_value(*expr)),
    }
}

pub open spec fn attr_values(items: Seq<Attr>) -> Seq<AttrV>
    decreases items,
{
    Seq::new(
        items.len(),
        |i: int|
            if 0 <= i < items.len() {
                attr_value(items[i])
            } else {
                arbitrary()
            },
    )
}

pub open spec fn jsx_value(jsx: Jsx) -> JsxV
    decreases jsx,
{
    match jsx {
        Jsx::Element { start, name, closing, attrs, children } => JsxV::Element {
            start,
            name: name@,
            closing: option_name(closing),
            attrs: attr_values(attrs@),
            children: child_values(children@),
        },
        Jsx::Fragment { start, children } => JsxV::Fragment {
            start,
            children: child_values(children@),
        },
    }
}

pub open spec fn child_value(child: Child) -> ChildV
    decreases child,
{
    match child {
        Child::Text(id) => ChildV::Text(id),
        Child::Jsx(jsx) => ChildV::Jsx(jsx_value(*jsx)),
        Child::Container(expr) => ChildV::Container(option_value(expr)),
        Child::Spread(expr) => ChildV::Spread(expr_value(*expr)),
    }
}

pub open spec fn child_values(items: Seq<Child>) -> Seq<ChildV>
    decreases items,
{
    Seq::new(
        items.len(),
        |i: int|
            if 0 <= i < items.len() {
                child_value(items[i])
            } else {
                arbitrary()
            },
    )
}

/// The value of an optional expression.
pub open spec fn option_value(expr: Option<Rc<Expr>>) -> Option<ExprV>
    decreases expr,
{
    match expr {
        None => None,
        Some(expr) => Some(expr_value(*expr)),
    }
}

pub open spec fn expr_value(expr: Expr) -> ExprV
    decreases expr,
{
    match expr {
        Expr::Jsx(jsx) => ExprV::Jsx(Box::new(jsx_value(*jsx))),
        Expr::Ident(name) => ExprV::Ident(name@),
        Expr::Text(text) => ExprV::Text(text@),
        Expr::This => ExprV::This,
        Expr::Member { object, property } => ExprV::Member {
            object: Box::new(expr_value(*object)),
            property: property@,
        },
        Expr::Typeof(inner) => ExprV::Typeof(Box::new(expr_value(*inner))),
        Expr::StrictEquality { left, right } => ExprV::StrictEquality {
            left: Box::new(expr_value(*left)),
            right: Box::new(expr_value(*right)),
        },
        Expr::Call { form, callee, args } => ExprV::Call {
            form,
            callee: Box::new(expr_value(*callee)),
            args: arg_values(args@),
        },
        Expr::Arrow { params, expression, body } => ExprV::Arrow {
            params: params_value(params),
            expression,
            body: stmt_values(body@),
        },
        Expr::Function(function) => ExprV::Function(function_value(function)),
        Expr::Conditional { test, consequent, alternate } => ExprV::Conditional {
            test: Box::new(expr_value(*test)),
            consequent: Box::new(expr_value(*consequent)),
            alternate: Box::new(expr_value(*alternate)),
        },
        Expr::Logical { form, left, right } => ExprV::Logical {
            form,
            left: Box::new(expr_value(*left)),
            right: Box::new(expr_value(*right)),
        },
        Expr::Assign { form, target, value } => ExprV::Assign {
            form,
            target: Box::new(expr_value(*target)),
            value: Box::new(expr_value(*value)),
        },
        Expr::Sequence(items) => ExprV::Sequence(expr_values(items@)),
        Expr::Paren(inner) => ExprV::Paren(Box::new(expr_value(*inner))),
        Expr::Typed { form, expr } => ExprV::Typed { form, expr: Box::new(expr_value(*expr)) },
        Expr::Node { id, parts } => ExprV::Node { id, parts: part_values(parts@) },
    }
}

pub open spec fn expr_values(items: Seq<Rc<Expr>>) -> Seq<ExprV>
    decreases items,
{
    Seq::new(
        items.len(),
        |i: int|
            if 0 <= i < items.len() {
                expr_value(*items[i])
            } else {
                arbitrary()
            },
    )
}

pub open spec fn arg_value(arg: Arg) -> ArgV
    decreases arg,
{
    match arg {
        Arg::Expr(expr) => ArgV::Expr(expr_value(*expr)),
        Arg::Spread(expr) => ArgV::Spread(expr_value(*expr)),
    }
}

pub open spec fn arg_values(items: Seq<Arg>) -> Seq<ArgV>
    decreases items,
{
    Seq::new(
        items.len(),
        |i: int|
            if 0 <= i < items.len() {
                arg_value(items[i])
            } else {
                arbitrary()
            },
    )
}

pub open spec fn function_value(function: Function) -> FunctionV
    decreases function,
{
    FunctionV {
        form: function.form,
        name: option_text(function.name),
        params: part_values(function.params@),
        body: match function.body {
            None => None,
            Some(body) => Some(stmt_values(body@)),
        },
    }
}

pub open spec fn declarator_value(declarator: Declarator) -> DeclaratorV
    decreases declarator,
{
    DeclaratorV { pattern: pattern_value(declarator.pattern), init: option_value(declarator.init) }
}

pub open spec fn declarator_values(items: Seq<Declarator>) -> Seq<DeclaratorV>
    decreases items,
{
    Seq::new(
        items.len(),
        |i: int|
            if 0 <= i < items.len() {
                declarator_value(items[i])
            } else {
                arbitrary()
            },
    )
}

pub open spec fn variables_value(variables: Variables) -> VariablesV
    decreases variables,
{
    VariablesV { form: variables.form, declarators: declarator_values(variables.declarators@) }
}

pub open spec fn declaration_value(declaration: Declaration) -> DeclarationV
    decreases declaration,
{
    match declaration {
        Declaration::Variables(variables) => DeclarationV::Variables(variables_value(variables)),
        Declaration::Function(function) => DeclarationV::Function(function_value(function)),
        Declaration::Class(class) => DeclarationV::Class(class_value(class)),
        Declaration::Node { id, parts } => DeclarationV::Node { id, parts: part_values(parts@) },
    }
}

pub open spec fn exported_value(exported: Exported) -> ExportedV
    decreases exported,
{
    match exported {
        Exported::Function(function) => ExportedV::Function(function_value(function)),
        Exported::Class(class) => ExportedV::Class(class_value(class)),
        Exported::Interface(id) => ExportedV::Interface(id),
        Exported::Expr(expr) => ExportedV::Expr(expr_value(*expr)),
    }
}

pub open spec fn stmt_value(stmt: Stmt) -> StmtV
    decreases stmt,
{
    match stmt {
        Stmt::Import { id, locals } => StmtV::Import { id, locals: texts(locals@) },
        Stmt::Variables(variables) => StmtV::Variables(variables_value(variables)),
        Stmt::Function(function) => StmtV::Function(function_value(function)),
        Stmt::Class(class) => StmtV::Class(class_value(class)),
        Stmt::ExportNamed { id, declaration } => StmtV::ExportNamed {
            id,
            declaration: match declaration {
                None => None,
                Some(declaration) => Some(declaration_value(declaration)),
            },
        },
        Stmt::ExportDefault { id, exported } => StmtV::ExportDefault {
            id,
            exported: exported_value(exported),
        },
        Stmt::Expr(expr) => StmtV::Expr(expr_value(*expr)),
        Stmt::Return(expr) => StmtV::Return(option_value(expr)),
        Stmt::If { test, consequent, alternate } => StmtV::If {
            test: expr_value(*test),
            consequent: Box::new(stmt_value(*consequent)),
            alternate: other_value(alternate),
        },
        Stmt::Block(body) => StmtV::Block(stmt_values(body@)),
        Stmt::Bare(id) => StmtV::Bare(id),
        Stmt::Node { id, parts } => StmtV::Node { id, parts: part_values(parts@) },
    }
}

pub open spec fn other_value(stmt: Option<Rc<Stmt>>) -> Option<Box<StmtV>>
    decreases stmt,
{
    match stmt {
        None => None,
        Some(stmt) => Some(Box::new(stmt_value(*stmt))),
    }
}

pub open spec fn stmt_values(items: Seq<Rc<Stmt>>) -> Seq<StmtV>
    decreases items,
{
    Seq::new(
        items.len(),
        |i: int|
            if 0 <= i < items.len() {
                stmt_value(*items[i])
            } else {
                arbitrary()
            },
    )
}

impl View for Attr {
    type V = AttrV;

    open spec fn view(&self) -> AttrV {
        attr_value(*self)
    }
}

impl View for Jsx {
    type V = JsxV;

    open spec fn view(&self) -> JsxV {
        jsx_value(*self)
    }
}

impl View for Child {
    type V = ChildV;

    open spec fn view(&self) -> ChildV {
        child_value(*self)
    }
}

impl View for Expr {
    type V = ExprV;

    open spec fn view(&self) -> ExprV {
        expr_value(*self)
    }
}

impl View for Params {
    type V = ParamsV;

    open spec fn view(&self) -> ParamsV {
        params_value(*self)
    }
}

impl View for Pattern {
    type V = PatternV;

    open spec fn view(&self) -> PatternV {
        pattern_value(*self)
    }
}

impl View for Class {
    type V = ClassV;

    open spec fn view(&self) -> ClassV {
        class_value(*self)
    }
}

impl View for Stmt {
    type V = StmtV;

    open spec fn view(&self) -> StmtV {
        stmt_value(*self)
    }
}

pub broadcast proof fn attr_values_push(items: Seq<Attr>, item: Attr)
    ensures
        #[trigger] attr_values(items.push(item)) == attr_values(items).push(attr_value(item)),
{
    assert(attr_values(items.push(item)) =~= attr_values(items).push(attr_value(item)));
}

pub broadcast proof fn child_values_push(items: Seq<Child>, item: Child)
    ensures
        #[trigger] child_values(items.push(item)) == child_values(items).push(child_value(item)),
{
    assert(child_values(items.push(item)) =~= child_values(items).push(child_value(item)));
}

pub broadcast proof fn expr_values_push(items: Seq<Rc<Expr>>, item: Rc<Expr>)
    ensures
        #[trigger] expr_values(items.push(item)) == expr_values(items).push(expr_value(*item)),
{
    assert(expr_values(items.push(item)) =~= expr_values(items).push(expr_value(*item)));
}

pub broadcast proof fn arg_values_push(items: Seq<Arg>, item: Arg)
    ensures
        #[trigger] arg_values(items.push(item)) == arg_values(items).push(arg_value(item)),
{
    assert(arg_values(items.push(item)) =~= arg_values(items).push(arg_value(item)));
}

pub broadcast proof fn part_values_push(items: Seq<Part>, item: Part)
    ensures
        #[trigger] part_values(items.push(item)) == part_values(items).push(part_value(item)),
{
    assert(part_values(items.push(item)) =~= part_values(items).push(part_value(item)));
}

pub broadcast proof fn declarator_values_push(items: Seq<Declarator>, item: Declarator)
    ensures
        #[trigger] declarator_values(items.push(item)) == declarator_values(items).push(
            declarator_value(item),
        ),
{
    assert(declarator_values(items.push(item)) =~= declarator_values(items).push(
        declarator_value(item),
    ));
}

pub broadcast proof fn stmt_values_push(items: Seq<Rc<Stmt>>, item: Rc<Stmt>)
    ensures
        #[trigger] stmt_values(items.push(item)) == stmt_values(items).push(stmt_value(*item)),
{
    assert(stmt_values(items.push(item)) =~= stmt_values(items).push(stmt_value(*item)));
}

/// The values of the empty lists.
pub broadcast proof fn no_attr_values()
    ensures
        #[trigger] attr_values(Seq::empty()) == Seq::<AttrV>::empty(),
{
    assert(attr_values(Seq::empty()) =~= Seq::<AttrV>::empty());
}

pub broadcast proof fn no_child_values()
    ensures
        #[trigger] child_values(Seq::empty()) == Seq::<ChildV>::empty(),
{
    assert(child_values(Seq::empty()) =~= Seq::<ChildV>::empty());
}

pub broadcast proof fn no_expr_values()
    ensures
        #[trigger] expr_values(Seq::empty()) == Seq::<ExprV>::empty(),
{
    assert(expr_values(Seq::empty()) =~= Seq::<ExprV>::empty());
}

pub broadcast proof fn no_arg_values()
    ensures
        #[trigger] arg_values(Seq::empty()) == Seq::<ArgV>::empty(),
{
    assert(arg_values(Seq::empty()) =~= Seq::<ArgV>::empty());
}

pub broadcast proof fn no_part_values()
    ensures
        #[trigger] part_values(Seq::empty()) == Seq::<PartV>::empty(),
{
    assert(part_values(Seq::empty()) =~= Seq::<PartV>::empty());
}

pub broadcast proof fn no_declarator_values()
    ensures
        #[trigger] declarator_values(Seq::empty()) == Seq::<DeclaratorV>::empty(),
{
    assert(declarator_values(Seq::empty()) =~= Seq::<DeclaratorV>::empty());
}

pub broadcast proof fn no_stmt_values()
    ensures
        #[trigger] stmt_values(Seq::empty()) == Seq::<StmtV>::empty(),
{
    assert(stmt_values(Seq::empty()) =~= Seq::<StmtV>::empty());
}

pub broadcast group group_program_values {
    attr_values_push,
    child_values_push,
    expr_values_push,
    arg_values_push,
    part_values_push,
    declarator_values_push,
    stmt_values_push,
    no_attr_values,
    no_child_values,
    no_expr_values,
    no_arg_values,
    no_part_values,
    no_declarator_values,
    no_stmt_values,
}

} // verus!
