//! The syntax tree that the transforms read and write.
//!
//! A tree holds what the transforms look at.  A node that they only carry
//! along, such as a class or a regular expression, is an `Opaque` node: its
//! number stands for the node in the table of whoever made the tree.
//!
//! The types whose names end in `V` are the mathematical values of the trees:
//! a tree and its clones have the same value.

use crate::ir::Step;
use crate::text::texts;
use std::rc::Rc;
use vstd::prelude::*;

verus! {

/// A range of bytes of the source text.
#[derive(Clone, Copy, Debug, PartialEq, Eq, Structural)]
pub struct Span {
    pub start: u32,
    pub end: u32,
}

/// The span of a node that has no place in the source text.
pub open spec fn no_span() -> Span {
    Span { start: 0, end: 0 }
}

/// The span of a node that has no place in the source text.
pub fn nowhere() -> (span: Span)
    ensures
        span == no_span(),
{
    Span { start: 0, end: 0 }
}

/// A number of the language: the bits of the 64-bit float and the text that it
/// prints as.
#[derive(Debug)]
pub struct Number {
    pub bits: u64,
    pub text: String,
}

/// The value of a `Number`.
pub ghost struct NumberV {
    pub bits: u64,
    pub text: Seq<char>,
}

/// What a name refers to.
#[derive(Clone, Copy, Debug, PartialEq, Eq, Structural)]
pub struct Symbol {
    pub id: u32,
    pub is_const: bool,
    pub is_function: bool,
    pub is_import: bool,
}

#[derive(Clone, Copy, Debug, PartialEq, Eq, Structural)]
pub enum UnaryOp {
    Plus,
    Minus,
    Not,
    BitNot,
    Typeof,
    Void,
    Delete,
}

#[derive(Clone, Copy, Debug, PartialEq, Eq, Structural)]
pub enum BinaryOp {
    Equality,
    Inequality,
    StrictEquality,
    StrictInequality,
    LessThan,
    LessEqualThan,
    GreaterThan,
    GreaterEqualThan,
    Addition,
    Subtraction,
    Multiplication,
    Division,
    Remainder,
    Exponential,
    ShiftLeft,
    ShiftRight,
    ShiftRightZeroFill,
    BitwiseOr,
    BitwiseXor,
    BitwiseAnd,
    In,
    Instanceof,
}

#[derive(Clone, Copy, Debug, PartialEq, Eq, Structural)]
pub enum LogicalOp {
    Or,
    And,
    Coalesce,
}

/// `=`, or one of the compound assignments, by a number of the tree's maker.
#[derive(Clone, Copy, Debug, PartialEq, Eq, Structural)]
pub enum AssignOp {
    Assign,
    Compound(u32),
}

/// The type-level wrappers; the number stands for the type.
#[derive(Clone, Copy, Debug, PartialEq, Eq, Structural)]
pub enum TypeWrapper {
    As(u32),
    Satisfies(u32),
    NonNull,
    Assertion(u32),
}

#[derive(Clone, Copy, Debug, PartialEq, Eq, Structural)]
pub enum PropKind {
    Init,
    Getter,
    Setter,
}

#[derive(Clone, Copy, Debug, PartialEq, Eq, Structural)]
pub enum VarKind {
    Var,
    Let,
    Const,
}

/// An expression that is known to be a string, a number or a boolean.
#[derive(Debug)]
pub enum StaticTextValue {
    String(String),
    Number(Number),
    Boolean(bool),
}

/// A form of a conditional whose test is memoized, and the steps that the
/// context took for it.
#[derive(Debug)]
pub struct Memo {
    pub expr: Rc<Expr>,
    pub steps: Vec<Step>,
}

/// The two forms of a conditional whose test is memoized, each made where the
/// transform reaches it: the expression to stand in place, and the accessor to
/// insert.
#[derive(Debug)]
pub struct Condition {
    pub inline: Option<Memo>,
    pub insert: Option<Memo>,
}

/// What is known of an expression of the source beyond its shape.
#[derive(Debug)]
pub struct Facts {
    /// Evaluating it may read reactive state.
    pub dynamic: bool,
    /// Its value, where it folds to one: `with_static_text` notes it.
    pub static_text: Option<StaticTextValue>,
    /// Its memoized forms, where it is a condition.
    pub condition: Option<Rc<Condition>>,
}

#[derive(Debug)]
pub struct Expr {
    pub span: Span,
    pub facts: Facts,
    pub kind: Kind,
}

#[derive(Debug)]
#[allow(inconsistent_fields)]
pub enum Kind {
    Ident { name: String, symbol: Option<Symbol> },
    Str(String),
    Num(Number),
    Bool(bool),
    Null,
    This,
    Template { quasis: Vec<Quasi>, exprs: Vec<Rc<Expr>> },
    Array(Vec<Element>),
    Object(Vec<Prop>),
    Member { object: Rc<Expr>, property: String, optional: bool },
    Index { object: Rc<Expr>, index: Rc<Expr>, optional: bool },
    PrivateMember { object: Rc<Expr>, field: String },
    Call { callee: Rc<Expr>, args: Vec<Element>, optional: bool },
    Arrow { is_async: bool, params: Vec<Pattern>, expression: bool, body: Vec<Stmt> },
    Function {
        is_async: bool,
        generator: bool,
        name: Option<String>,
        params: Vec<Pattern>,
        body: Vec<Stmt>,
    },
    Assign { op: AssignOp, target: Rc<Expr>, value: Rc<Expr> },
    Unary { op: UnaryOp, argument: Rc<Expr> },
    Binary { op: BinaryOp, left: Rc<Expr>, right: Rc<Expr> },
    Logical { op: LogicalOp, left: Rc<Expr>, right: Rc<Expr> },
    Conditional { test: Rc<Expr>, consequent: Rc<Expr>, alternate: Rc<Expr> },
    Sequence(Vec<Rc<Expr>>),
    Paren(Rc<Expr>),
    Chain(Rc<Expr>),
    Typed { wrapper: TypeWrapper, expr: Rc<Expr> },
    JsxElement(Rc<JsxElement>),
    JsxFragment(Rc<JsxFragment>),
    /// What a request of this number comes to.
    Hole(usize),
    Opaque(u32),
}

#[derive(Debug)]
pub struct Quasi {
    pub raw: String,
    pub cooked: Option<String>,
}

/// An element of an array, or an argument of a call.
#[derive(Debug)]
pub enum Element {
    Expr(Rc<Expr>),
    Spread(Rc<Expr>),
    Hole,
}

#[derive(Debug)]
pub enum Key {
    Ident(String),
    Str(String),
    Num(Number),
    Expr(Rc<Expr>),
}

#[derive(Debug)]
pub enum Prop {
    Named {
        span: Span,
        kind: PropKind,
        key: Key,
        value: Rc<Expr>,
        method: bool,
        shorthand: bool,
        computed: bool,
    },
    Spread { span: Span, argument: Rc<Expr> },
}

/// A binding pattern: a name, `{ a, b }`, `[a, b]`, or one that is carried
/// along.
#[derive(Debug)]
pub enum Pattern {
    Ident(String),
    Object(Vec<String>),
    Array(Vec<String>),
    Opaque(u32),
}

#[derive(Debug)]
pub struct Declarator {
    pub pattern: Pattern,
    pub init: Option<Rc<Expr>>,
}

#[derive(Debug)]
pub enum Stmt {
    Expr(Rc<Expr>),
    Return(Option<Rc<Expr>>),
    Var { kind: VarKind, declarators: Vec<Declarator> },
    Block(Vec<Stmt>),
    If { test: Rc<Expr>, consequent: Box<Stmt>, alternate: Option<Box<Stmt>> },
    Function { name: Option<String>, function: u32, body: Vec<Stmt> },
    Opaque(u32),
}

/// A JSX element.
#[derive(Debug)]
pub struct JsxElement {
    pub span: Span,
    pub tag: String,
    /// The tag names a component and not an element of the platform.
    pub is_component: bool,
    /// For a component: its lowered form, made where the transform reaches it.
    pub component: Option<ComponentOutput>,
    pub attrs: Vec<JsxAttr>,
    pub children: Vec<JsxChild>,
}

/// The lowered form of a component: the expressions that make it, whether a
/// hydratable event lies below it, and the steps that the context took for it.
#[derive(Debug)]
pub struct ComponentOutput {
    pub exprs: Vec<Rc<Expr>>,
    pub has_hydratable_event: bool,
    pub steps: Vec<Step>,
}

#[derive(Debug)]
pub struct JsxFragment {
    pub span: Span,
    pub children: Vec<JsxChild>,
    /// How the universal renderer puts out several children.
    pub lowered: Option<Rc<Expr>>,
}

#[derive(Debug)]
pub enum JsxAttr {
    Named(JsxAttribute),
    Spread { span: Span, argument: Rc<Expr> },
}

/// An attribute; `key` is the whole name, `ns:name` where it has a namespace.
#[derive(Debug)]
pub struct JsxAttribute {
    pub span: Span,
    pub key: String,
    /// The event that a handler of this name, less a `Capture` at its end as
    /// `event_key` takes it off, listens to.
    pub event_name: String,
    pub value: JsxValue,
}

#[derive(Debug)]
pub enum JsxValue {
    Absent,
    /// A string, as written and with its character references resolved.
    Str { value: String, decoded: String },
    /// `{expr}`, or `{}`.  `remainder_dynamic` says of an object literal
    /// whether what remains without its literal properties is dynamic.
    Container { span: Span, expr: Option<Rc<Expr>>, remainder_dynamic: bool },
    Element(Rc<JsxElement>),
    Fragment(Rc<JsxFragment>),
}

/// A piece of text: as written, as it goes into a template, and with its
/// entities decoded.
#[derive(Debug)]
pub struct JsxText {
    pub span: Span,
    pub source: String,
    pub content: String,
    pub decoded: String,
}

#[derive(Debug)]
#[allow(inconsistent_fields)]
pub enum JsxChild {
    Text(JsxText),
    Element(Rc<JsxElement>),
    Fragment(Rc<JsxFragment>),
    Container { span: Span, expr: Option<Rc<Expr>> },
    Spread { span: Span, expr: Rc<Expr> },
}

// ---------------------------------------------------------------------------
// Values
// ---------------------------------------------------------------------------

#[allow(inconsistent_fields)]
pub ghost enum KindV {
    Ident { name: Seq<char>, symbol: Option<Symbol> },
    Str(Seq<char>),
    Num(NumberV),
    Bool(bool),
    Null,
    This,
    Template { quasis: Seq<QuasiV>, exprs: Seq<ExprV> },
    Array(Seq<ElementV>),
    Object(Seq<PropV>),
    Member { object: Box<ExprV>, property: Seq<char>, optional: bool },
    Index { object: Box<ExprV>, index: Box<ExprV>, optional: bool },
    PrivateMember { object: Box<ExprV>, field: Seq<char> },
    Call { callee: Box<ExprV>, args: Seq<ElementV>, optional: bool },
    Arrow { is_async: bool, params: Seq<PatternV>, expression: bool, body: Seq<StmtV> },
    Function {
        is_async: bool,
        generator: bool,
        name: Option<Seq<char>>,
        params: Seq<PatternV>,
        body: Seq<StmtV>,
    },
    Assign { op: AssignOp, target: Box<ExprV>, value: Box<ExprV> },
    Unary { op: UnaryOp, argument: Box<ExprV> },
    Binary { op: BinaryOp, left: Box<ExprV>, right: Box<ExprV> },
    Logical { op: LogicalOp, left: Box<ExprV>, right: Box<ExprV> },
    Conditional { test: Box<ExprV>, consequent: Box<ExprV>, alternate: Box<ExprV> },
    Sequence(Seq<ExprV>),
    Paren(Box<ExprV>),
    Chain(Box<ExprV>),
    Typed { wrapper: TypeWrapper, expr: Box<ExprV> },
    JsxElement(JsxElement),
    JsxFragment(JsxFragment),
    Hole(usize),
    Opaque(u32),
}

pub ghost struct QuasiV {
    pub raw: Seq<char>,
    pub cooked: Option<Seq<char>>,
}

pub ghost enum ElementV {
    Expr(ExprV),
    Spread(ExprV),
    Hole,
}

pub ghost enum KeyV {
    Ident(Seq<char>),
    Str(Seq<char>),
    Num(NumberV),
    Expr(ExprV),
}

pub ghost enum PropV {
    Named {
        span: Span,
        kind: PropKind,
        key: KeyV,
        value: ExprV,
        method: bool,
        shorthand: bool,
        computed: bool,
    },
    Spread { span: Span, argument: ExprV },
}

pub ghost enum PatternV {
    Ident(Seq<char>),
    Object(Seq<Seq<char>>),
    Array(Seq<Seq<char>>),
    Opaque(u32),
}

pub ghost struct DeclaratorV {
    pub pattern: PatternV,
    pub init: Option<ExprV>,
}

pub ghost enum StmtV {
    Expr(ExprV),
    Return(Option<ExprV>),
    Var { kind: VarKind, declarators: Seq<DeclaratorV> },
    Block(Seq<StmtV>),
    If { test: ExprV, consequent: Box<StmtV>, alternate: Option<Box<StmtV>> },
    Function { name: Option<Seq<char>>, function: u32, body: Seq<StmtV> },
    Opaque(u32),
}

pub ghost struct ExprV {
    pub span: Span,
    pub facts: Facts,
    pub kind: KindV,
}

impl View for Number {
    type V = NumberV;

    open spec fn view(&self) -> NumberV {
        NumberV { bits: self.bits, text: self.text@ }
    }
}

impl View for Pattern {
    type V = PatternV;

    open spec fn view(&self) -> PatternV {
        match *self {
            Pattern::Ident(name) => PatternV::Ident(name@),
            Pattern::Object(names) => PatternV::Object(texts(names@)),
            Pattern::Array(names) => PatternV::Array(texts(names@)),
            Pattern::Opaque(id) => PatternV::Opaque(id),
        }
    }
}

/// The text of an optional string.
pub open spec fn option_text(text: Option<String>) -> Option<Seq<char>> {
    match text {
        None => None,
        Some(text) => Some(text@),
    }
}

impl View for Quasi {
    type V = QuasiV;

    open spec fn view(&self) -> QuasiV {
        QuasiV { raw: self.raw@, cooked: option_text(self.cooked) }
    }
}

pub open spec fn quasi_values(items: Seq<Quasi>) -> Seq<QuasiV> {
    items.map_values(|q: Quasi| q@)
}

pub open spec fn pattern_values(items: Seq<Pattern>) -> Seq<PatternV> {
    items.map_values(|p: Pattern| p@)
}

pub open spec fn expr_value(expr: Expr) -> ExprV
    decreases expr,
{
    ExprV { span: expr.span, facts: expr.facts, kind: kind_value(expr.kind) }
}

pub open spec fn kind_value(kind: Kind) -> KindV
    decreases kind,
{
    match kind {
        Kind::Ident { name, symbol } => KindV::Ident { name: name@, symbol },
        Kind::Str(text) => KindV::Str(text@),
        Kind::Num(number) => KindV::Num(number@),
        Kind::Bool(b) => KindV::Bool(b),
        Kind::Null => KindV::Null,
        Kind::This => KindV::This,
        Kind::Template { quasis, exprs } => KindV::Template {
            quasis: quasi_values(quasis@),
            exprs: expr_values(exprs@),
        },
        Kind::Array(items) => KindV::Array(element_values(items@)),
        Kind::Object(props) => KindV::Object(prop_values(props@)),
        Kind::Member { object, property, optional } => KindV::Member {
            object: Box::new(expr_value(*object)),
            property: property@,
            optional,
        },
        Kind::Index { object, index, optional } => KindV::Index {
            object: Box::new(expr_value(*object)),
            index: Box::new(expr_value(*index)),
            optional,
        },
        Kind::PrivateMember { object, field } => KindV::PrivateMember {
            object: Box::new(expr_value(*object)),
            field: field@,
        },
        Kind::Call { callee, args, optional } => KindV::Call {
            callee: Box::new(expr_value(*callee)),
            args: element_values(args@),
            optional,
        },
        Kind::Arrow { is_async, params, expression, body } => KindV::Arrow {
            is_async,
            params: pattern_values(params@),
            expression,
            body: stmt_values(body@),
        },
        Kind::Function { is_async, generator, name, params, body } => KindV::Function {
            is_async,
            generator,
            name: option_text(name),
            params: pattern_values(params@),
            body: stmt_values(body@),
        },
        Kind::Assign { op, target, value } => KindV::Assign {
            op,
            target: Box::new(expr_value(*target)),
            value: Box::new(expr_value(*value)),
        },
        Kind::Unary { op, argument } => KindV::Unary {
            op,
            argument: Box::new(expr_value(*argument)),
        },
        Kind::Binary { op, left, right } => KindV::Binary {
            op,
            left: Box::new(expr_value(*left)),
            right: Box::new(expr_value(*right)),
        },
        Kind::Logical { op, left, right } => KindV::Logical {
            op,
            left: Box::new(expr_value(*left)),
            right: Box::new(expr_value(*right)),
        },
        Kind::Conditional { test, consequent, alternate } => KindV::Conditional {
            test: Box::new(expr_value(*test)),
            consequent: Box::new(expr_value(*consequent)),
            alternate: Box::new(expr_value(*alternate)),
        },
        Kind::Sequence(items) => KindV::Sequence(expr_values(items@)),
        Kind::Paren(inner) => KindV::Paren(Box::new(expr_value(*inner))),
        Kind::Chain(inner) => KindV::Chain(Box::new(expr_value(*inner))),
        Kind::Typed { wrapper, expr } => KindV::Typed { wrapper, expr: Box::new(expr_value(*expr)) },
        Kind::JsxElement(element) => KindV::JsxElement(*element),
        Kind::JsxFragment(fragment) => KindV::JsxFragment(*fragment),
        Kind::Hole(slot) => KindV::Hole(slot),
        Kind::Opaque(id) => KindV::Opaque(id),
    }
}

pub open spec fn expr_values(items: Seq<Rc<Expr>>) -> Seq<ExprV>
    decreases items,
{
    Seq::new(
        items.len(),
        |i: int|
            if 0 <= i < items.len() {
                expr_value(*items[i])
            } else {
                arbitrary()
            },
    )
}

pub open spec fn element_value(item: Element) -> ElementV
    decreases item,
{
    match item {
        Element::Expr(expr) => ElementV::Expr(expr_value(*expr)),
        Element::Spread(expr) => ElementV::Spread(expr_value(*expr)),
        Element::Hole => ElementV::Hole,
    }
}

pub open spec fn element_values(items: Seq<Element>) -> Seq<ElementV>
    decreases items,
{
    Seq::new(
        items.len(),
        |i: int|
            if 0 <= i < items.len() {
                element_value(items[i])
            } else {
                arbitrary()
            },
    )
}

pub open spec fn key_value(key: Key) -> KeyV
    decreases key,
{
    match key {
        Key::Ident(name) => KeyV::Ident(name@),
        Key::Str(text) => KeyV::Str(text@),
        Key::Num(number) => KeyV::Num(number@),
        Key::Expr(expr) => KeyV::Expr(expr_value(*expr)),
    }
}

pub open spec fn prop_value(prop: Prop) -> PropV
    decreases prop,
{
    match prop {
        Prop::Named { span, kind, key, value, method, shorthand, computed } => PropV::Named {
            span,
            kind,
            key: key_value(key),
            value: expr_value(*value),
            method,
            shorthand,
            computed,
        },
        Prop::Spread { span, argument } => PropV::Spread { span, argument: expr_value(*argument) },
    }
}

pub open spec fn prop_values(items: Seq<Prop>) -> Seq<PropV>
    decreases items,
{
    Seq::new(
        items.len(),
        |i: int|
            if 0 <= i < items.len() {
                prop_value(items[i])
            } else {
                arbitrary()
            },
    )
}

/// The value of an optional expression.
pub open spec fn option_value(expr: Option<Rc<Expr>>) -> Option<ExprV>
    decreases expr,
{
    match expr {
        None => None,
        Some(expr) => Some(expr_value(*expr)),
    }
}

pub open spec fn declarator_values(items: Seq<Declarator>) -> Seq<DeclaratorV>
    decreases items,
{
    Seq::new(
        items.len(),
        |i: int|
            if 0 <= i < items.len() {
                DeclaratorV { pattern: items[i].pattern@, init: option_value(items[i].init) }
            } else {
                arbitrary()
            },
    )
}

pub open spec fn stmt_value(stmt: Stmt) -> StmtV
    decreases stmt,
{
    match stmt {
        Stmt::Expr(expr) => StmtV::Expr(expr_value(*expr)),
        Stmt::Return(expr) => StmtV::Return(option_value(expr)),
        Stmt::Var { kind, declarators } => StmtV::Var {
            kind,
            declarators: declarator_values(declarators@),
        },
        Stmt::Block(body) => StmtV::Block(stmt_values(body@)),
        Stmt::If { test, consequent, alternate } => StmtV::If {
            test: expr_value(*test),
            consequent: Box::new(stmt_value(*consequent)),
            alternate: match alternate {
                None => None,
                Some(alternate) => Some(Box::new(stmt_value(*alternate))),
            },
        },
        Stmt::Function { name, function, body } => StmtV::Function {
            name: option_text(name),
            function,
            body: stmt_values(body@),
        },
        Stmt::Opaque(id) => StmtV::Opaque(id),
    }
}

pub open spec fn stmt_values(items: Seq<Stmt>) -> Seq<StmtV>
    decreases items,
{
    Seq::new(
        items.len(),
        |i: int|
            if 0 <= i < items.len() {
                stmt_value(items[i])
            } else {
                arbitrary()
            },
    )
}

impl View for Expr {
    type V = ExprV;

    open spec fn view(&self) -> ExprV {
        expr_value(*self)
    }
}

impl View for Stmt {
    type V = StmtV;

    open spec fn view(&self) -> StmtV {
        stmt_value(*self)
    }
}

impl View for Prop {
    type V = PropV;

    open spec fn view(&self) -> PropV {
        prop_value(*self)
    }
}

impl View for Element {
    type V = ElementV;

    open spec fn view(&self) -> ElementV {
        element_value(*self)
    }
}

impl View for Key {
    type V = KeyV;

    open spec fn view(&self) -> KeyV {
        key_value(*self)
    }
}

/// The values of a list with one more expression.
pub broadcast proof fn expr_values_push(items: Seq<Rc<Expr>>, item: Rc<Expr>)
    ensures
        #[trigger] expr_values(items.push(item)) == expr_values(items).push(item@),
{
    assert(expr_values(items.push(item)) =~= expr_values(items).push(item@));
}

/// The values of a list with one more element.
pub broadcast proof fn element_values_push(items: Seq<Element>, item: Element)
    ensures
        #[trigger] element_values(items.push(item)) == element_values(items).push(item@),
{
    assert(element_values(items.push(item)) =~= element_values(items).push(item@));
}

/// The values of a list with one more property.
pub broadcast proof fn prop_values_push(items: Seq<Prop>, item: Prop)
    ensures
        #[trigger] prop_values(items.push(item)) == prop_values(items).push(item@),
{
    assert(prop_values(items.push(item)) =~= prop_values(items).push(item@));
}

/// The values of a list with one more statement.
pub broadcast proof fn stmt_values_push(items: Seq<Stmt>, item: Stmt)
    ensures
        #[trigger] stmt_values(items.push(item)) == stmt_values(items).push(item@),
{
    assert(stmt_values(items.push(item)) =~= stmt_values(items).push(item@));
}

/// The values of a list with one more declarator.
pub broadcast proof fn declarator_values_push(items: Seq<Declarator>, item: Declarator)
    ensures
        #[trigger] declarator_values(items.push(item)) == declarator_values(items).push(
            DeclaratorV { pattern: item.pattern@, init: option_value(item.init) },
        ),
{
    assert(declarator_values(items.push(item)) =~= declarator_values(items).push(
        DeclaratorV { pattern: item.pattern@, init: option_value(item.init) },
    ));
}

/// The values of the empty lists.
pub broadcast proof fn no_expr_values()
    ensures
        #[trigger] expr_values(Seq::empty()) == Seq::<ExprV>::empty(),
{
    assert(expr_values(Seq::empty()) =~= Seq::<ExprV>::empty());
}

pub broadcast proof fn no_element_values()
    ensures
        #[trigger] element_values(Seq::empty()) == Seq::<ElementV>::empty(),
{
    assert(element_values(Seq::empty()) =~= Seq::<ElementV>::empty());
}

pub broadcast proof fn no_prop_values()
    ensures
        #[trigger] prop_values(Seq::empty()) == Seq::<PropV>::empty(),
{
    assert(prop_values(Seq::empty()) =~= Seq::<PropV>::empty());
}

pub broadcast proof fn no_stmt_values()
    ensures
        #[trigger] stmt_values(Seq::empty()) == Seq::<StmtV>::empty(),
{
    assert(stmt_values(Seq::empty()) =~= Seq::<StmtV>::empty());
}

pub broadcast proof fn no_declarator_values()
    ensures
        #[trigger] declarator_values(Seq::empty()) == Seq::<DeclaratorV>::empty(),
{
    assert(declarator_values(Seq::empty()) =~= Seq::<DeclaratorV>::empty());
}

pub broadcast group group_values {
    expr_values_push,
    element_values_push,
    prop_values_push,
    stmt_values_push,
    declarator_values_push,
    no_expr_values,
    no_element_values,
    no_prop_values,
    no_stmt_values,
    no_declarator_values,
}

} // verus!
