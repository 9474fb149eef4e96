//! What is taken out of a JSX tree: its expressions, and the names of its
//! components.
//!
//! Each goes into an attribute `v0`, `v1`, ... of a list, and the tree reads it
//! back as `_props.v0`, `_props.v1`, ...

use crate::make::copied;
use crate::outside::{same, share};
use crate::refresh_names::{component_pattern, holds, is_component_name_pattern};
use crate::refresh_tree::{
    arg_values, attr_value, attr_values, child_value, child_values, declarator_value,
    declarator_values, expr_value, group_program_values, jsx_value, option_name, option_value,
    params_value, stmt_value, stmt_values, Arg, ArgV, Attr, AttrName, AttrNameV, AttrV, AttrValue, AttrValueV,
    Child, ChildV, Declarator, DeclaratorV, Expr, ExprV, Form, Jsx, JsxV, MemberName, MemberNameV,
    Name, NameObject, NameObjectV, NameV, Params, ParamsV, Pattern, PatternV, Stmt, StmtV,
};
use crate::text::{decimal, decimal_text, joined, texts};
use std::rc::Rc;
use vstd::prelude::*;

verus! {

broadcast use group_program_values;

/// What has been taken out so far.
#[derive(Debug)]
pub struct Extraction {
    /// `vN={expr}`, in order.
    pub attrs: Vec<Attr>,
    /// The directives that the template names, each read from the properties.
    pub vars: Vec<Declarator>,
}

/// The value of an `Extraction`.
pub ghost struct ExtractionV {
    pub attrs: Seq<AttrV>,
    pub vars: Seq<DeclaratorV>,
}

impl View for Extraction {
    type V = ExtractionV;

    open spec fn view(&self) -> ExtractionV {
        ExtractionV { attrs: attr_values(self.attrs@), vars: declarator_values(self.vars@) }
    }
}

/// The attribute that holds the `n`th expression.
pub open spec fn key_v(n: nat) -> Seq<char> {
    "v"@ + decimal(n)
}

/// `_props.key`.
pub open spec fn props_member_v(key: Seq<char>) -> ExprV {
    ExprV::Member { object: Box::new(ExprV::Ident("_props"@)), property: key }
}

/// `_props.key`, as the name of an element.
pub open spec fn props_name_v(key: Seq<char>) -> NameV {
    NameV::Member(MemberNameV { object: NameObjectV::Ident("_props"@), property: key })
}

/// `key={expr}`.
pub open spec fn kept_v(key: Seq<char>, expr: ExprV) -> AttrV {
    AttrV::Named { name: AttrNameV::Ident(key), value: AttrValueV::Container(Some(expr)) }
}

impl ExtractionV {
    /// With one more expression.
    pub open spec fn with_expr(self, expr: ExprV) -> ExtractionV {
        ExtractionV { attrs: self.attrs.push(kept_v(key_v(self.attrs.len()), expr)), ..self }
    }

    /// What reads the next expression that is taken out.
    pub open spec fn next_read(self) -> ExprV {
        props_member_v(key_v(self.attrs.len()))
    }
}

/// The path of an element's name, as an expression.
pub open spec fn member_expr_v(name: MemberName) -> ExprV
    decreases name,
{
    ExprV::Member {
        object: Box::new(
            match name.object {
                NameObject::Ident(text) => ExprV::Ident(text@),
                NameObject::Member(inner) => member_expr_v(*inner),
                NameObject::This => ExprV::This,
            },
        ),
        property: name.property@,
    }
}

/// The component that an element's name stands for, where it is to be taken
/// out: a reference that is not bound at the top level, or a path.
pub open spec fn taken_name(name: Name, top: Seq<Seq<char>>) -> Option<ExprV> {
    match name {
        Name::Reference(text) => if component_pattern(text@) && !top.contains(text@) {
            Some(ExprV::Ident(text@))
        } else {
            None
        },
        Name::Member(member) => Some(member_expr_v(*member)),
        _ => None,
    }
}

/// The expression inside parentheses and wrappers of the types.
pub open spec fn unwrapped(expr: Expr) -> Expr
    decreases expr,
{
    match expr {
        Expr::Paren(inner) => unwrapped(*inner),
        Expr::Typed { expr, .. } => unwrapped(*expr),
        _ => expr,
    }
}

/// `(_arg) => typeof name === "function" ? name(_arg) : name = _arg`.
pub open spec fn ref_callback_v(name: Seq<char>) -> ExprV {
    let arg = ExprV::Ident("_arg"@);
    let target = ExprV::Ident(name);
    let choice = ExprV::Conditional {
        test: Box::new(
            ExprV::StrictEquality {
                left: Box::new(ExprV::Typeof(Box::new(target))),
                right: Box::new(ExprV::Text("function"@)),
            },
        ),
        consequent: Box::new(
            ExprV::Call {
                form: Form::Plain,
                callee: Box::new(target),
                args: Seq::empty().push(ArgV::Expr(arg)),
            },
        ),
        alternate: Box::new(
            ExprV::Assign {
                form: Form::Plain,
                target: Box::new(target),
                value: Box::new(arg),
            },
        ),
    };
    ExprV::Arrow {
        params: ParamsV::One("_arg"@),
        expression: true,
        body: Seq::empty().push(StmtV::Expr(choice)),
    }
}

/// What a `ref` is handed: a callback for a name, else the expression itself.
pub open spec fn ref_target_v(expr: Expr) -> ExprV {
    match unwrapped(expr) {
        Expr::Ident(name) => ref_callback_v(name@),
        _ => expr_value(expr),
    }
}

/// What is left of the value of an attribute, and what was taken out of it.
pub open spec fn value_out(value: AttrValue, st: ExtractionV) -> (AttrValueV, ExtractionV) {
    match value {
        AttrValue::Absent => (AttrValueV::Absent, st),
        AttrValue::Text(id) => (AttrValueV::Text(id), st),
        AttrValue::Container(None) => (AttrValueV::Container(None), st),
        AttrValue::Container(Some(expr)) => (
            AttrValueV::Container(Some(st.next_read())),
            st.with_expr(expr_value(*expr)),
        ),
        AttrValue::Jsx(jsx) => (
            AttrValueV::Container(Some(st.next_read())),
            st.with_expr(ExprV::Jsx(Box::new(jsx_value(*jsx)))),
        ),
    }
}

/// What is left of an attribute, and what was taken out of it.
pub open spec fn attr_out(attr: Attr, st: ExtractionV) -> (AttrV, ExtractionV) {
    match attr {
        Attr::Spread(expr) => (AttrV::Spread(st.next_read()), st.with_expr(expr_value(*expr))),
        Attr::Named { name: AttrName::Namespaced { namespace, name }, value } => {
            if namespace@ == "use"@ {
                let (left, st) = match value {
                    AttrValue::Container(_) => value_out(value, st),
                    _ => (attr_value(attr)->value, st),
                };
                let directive = DeclaratorV {
                    pattern: PatternV::Ident(name@),
                    init: Some(st.next_read()),
                };
                let st = st.with_expr(ExprV::Ident(name@));
                (
                    AttrV::Named {
                        name: AttrNameV::Namespaced { namespace: namespace@, name: name@ },
                        value: left,
                    },
                    ExtractionV { vars: st.vars.push(directive), ..st },
                )
            } else {
                let (left, st) = value_out(value, st);
                (
                    AttrV::Named {
                        name: AttrNameV::Namespaced { namespace: namespace@, name: name@ },
                        value: left,
                    },
                    st,
                )
            }
        },
        Attr::Named { name: AttrName::Ident(name), value } => {
            if name@ == "ref"@ {
                match value {
                    AttrValue::Container(Some(expr)) => (
                        AttrV::Named {
                            name: AttrNameV::Ident(name@),
                            value: AttrValueV::Container(Some(st.next_read())),
                        },
                        st.with_expr(ref_target_v(*expr)),
                    ),
                    _ => (attr_value(attr), st),
                }
            } else {
                let (left, st) = value_out(value, st);
                (AttrV::Named { name: AttrNameV::Ident(name@), value: left }, st)
            }
        },
    }
}

/// What is left of the first `n` attributes, and what was taken out of them.
pub open spec fn attrs_out(attrs: Seq<Attr>, n: nat, st: ExtractionV) -> (Seq<AttrV>, ExtractionV)
    decreases n,
{
    if n == 0 {
        (Seq::empty(), st)
    } else {
        let (before, st) = attrs_out(attrs, (n - 1) as nat, st);
        let (attr, st) = attr_out(attrs[n - 1], st);
        (before.push(attr), st)
    }
}

/// What is left of the name of an element and of its closing tag, and what was
/// taken out.
pub open spec fn name_out(
    name: Name,
    closing: Option<Name>,
    top: Seq<Seq<char>>,
    st: ExtractionV,
) -> (NameV, Option<NameV>, ExtractionV) {
    match taken_name(name, top) {
        None => (name@, option_name(closing), st),
        Some(expr) => {
            let read = props_name_v(key_v(st.attrs.len()));
            (
                read,
                if closing is Some {
                    Some(read)
                } else {
                    None
                },
                st.with_expr(expr),
            )
        },
    }
}

/// What is left of a JSX tree, and what was taken out of it: of an element its
/// name, then its attributes; then what its children hold.
pub open spec fn jsx_out(jsx: Jsx, top: Seq<Seq<char>>, st: ExtractionV) -> (JsxV, ExtractionV)
    decreases jsx, 0nat,
{
    match jsx {
        Jsx::Element { start, name, closing, attrs, children } => {
            let (name, closing, st) = name_out(name, closing, top, st);
            let (attrs, st) = attrs_out(attrs@, attrs@.len(), st);
            let (children, st) = children_out(children@, children@.len(), top, st);
            (JsxV::Element { start, name, closing, attrs, children }, st)
        },
        Jsx::Fragment { start, children } => {
            let (children, st) = children_out(children@, children@.len(), top, st);
            (JsxV::Fragment { start, children }, st)
        },
    }
}

/// What is left of a child, and what was taken out of it.
pub open spec fn child_out(child: Child, top: Seq<Seq<char>>, st: ExtractionV) -> (
    ChildV,
    ExtractionV,
)
    decreases child, 0nat,
{
    match child {
        Child::Text(id) => (ChildV::Text(id), st),
        Child::Jsx(jsx) => {
            let (jsx, st) = jsx_out(*jsx, top, st);
            (ChildV::Jsx(jsx), st)
        },
        Child::Container(None) => (ChildV::Container(None), st),
        Child::Container(Some(expr)) => (
            ChildV::Container(Some(st.next_read())),
            st.with_expr(expr_value(*expr)),
        ),
        Child::Spread(expr) => (ChildV::Spread(st.next_read()), st.with_expr(expr_value(*expr))),
    }
}

/// What is left of the first `n` children, and what was taken out of them.
pub open spec fn children_out(
    children: Seq<Child>,
    n: nat,
    top: Seq<Seq<char>>,
    st: ExtractionV,
) -> (Seq<ChildV>, ExtractionV)
    decreases children, n,
{
    if n == 0 || n > children.len() {
        (Seq::empty(), st)
    } else {
        let (before, st) = children_out(children, (n - 1) as nat, top, st);
        let (child, st) = child_out(children[n - 1], top, st);
        (before.push(child), st)
    }
}

// ---------------------------------------------------------------------------
// Laws
// ---------------------------------------------------------------------------

/// Every attribute is named by its place.
pub open spec fn keys_count_up(st: ExtractionV) -> bool {
    forall|i: int| 0 <= i < st.attrs.len() ==> named_by(#[trigger] st.attrs[i], i as nat)
}

/// `attr` is `vN={..}` for this number.
pub open spec fn named_by(attr: AttrV, n: nat) -> bool {
    match attr {
        AttrV::Named { name: AttrNameV::Ident(key), value: AttrValueV::Container(Some(_)) } => key
            == key_v(n),
        _ => false,
    }
}

/// `later` holds what `st` holds, and perhaps more behind it.
pub open spec fn extends(st: ExtractionV, later: ExtractionV) -> bool {
    &&& st.attrs.len() <= later.attrs.len()
    &&& later.attrs.take(st.attrs.len() as int) == st.attrs
    &&& st.vars.len() <= later.vars.len()
    &&& later.vars.take(st.vars.len() as int) == st.vars
    &&& keys_count_up(st) ==> keys_count_up(later)
}

proof fn extends_itself(st: ExtractionV)
    ensures
        extends(st, st),
{
    assert(st.attrs.take(st.attrs.len() as int) =~= st.attrs);
    assert(st.vars.take(st.vars.len() as int) =~= st.vars);
}

proof fn extends_by(st: ExtractionV, mid: ExtractionV, later: ExtractionV)
    requires
        extends(st, mid),
        extends(mid, later),
    ensures
        extends(st, later),
{
    assert(later.attrs.take(st.attrs.len() as int) =~= later.attrs.take(
        mid.attrs.len() as int,
    ).take(st.attrs.len() as int));
    assert(later.vars.take(st.vars.len() as int) =~= later.vars.take(mid.vars.len() as int).take(
        st.vars.len() as int,
    ));
}

proof fn extends_with(st: ExtractionV, expr: ExprV)
    ensures
        extends(st, st.with_expr(expr)),
{
    let later = st.with_expr(expr);
    assert(later.attrs.take(st.attrs.len() as int) =~= st.attrs);
    assert(later.vars.take(st.vars.len() as int) =~= st.vars);
    if keys_count_up(st) {
        assert forall|i: int| 0 <= i < later.attrs.len() implies named_by(
            #[trigger] later.attrs[i],
            i as nat,
        ) by {
            if i < st.attrs.len() {
                assert(later.attrs[i] == st.attrs[i]);
            }
        }
    }
}

pub(crate) proof fn attr_extends(attr: Attr, st: ExtractionV)
    ensures
        extends(st, attr_out(attr, st).1),
{
    extends_itself(st);
    assert forall|expr: ExprV| extends(st, #[trigger] st.with_expr(expr)) by {
        extends_with(st, expr);
    }
    if let Attr::Named { name: AttrName::Namespaced { namespace, name }, value } = attr {
        if namespace@ == "use"@ {
            let mid = match value {
                AttrValue::Container(_) => value_out(value, st).1,
                _ => st,
            };
            extends_with(mid, ExprV::Ident(name@));
            let named = mid.with_expr(ExprV::Ident(name@));
            let last = attr_out(attr, st).1;
            assert(last.attrs.take(named.attrs.len() as int) =~= named.attrs);
            assert(last.vars.take(named.vars.len() as int) =~= named.vars);
            assert(extends(named, last));
            extends_by(st, mid, named);
            extends_by(st, named, last);
        }
    }
}

pub(crate) proof fn attrs_extend(attrs: Seq<Attr>, n: nat, st: ExtractionV)
    ensures
        extends(st, attrs_out(attrs, n, st).1),
    decreases n,
{
    if n == 0 {
        extends_itself(st);
    } else {
        attrs_extend(attrs, (n - 1) as nat, st);
        let mid = attrs_out(attrs, (n - 1) as nat, st).1;
        attr_extends(attrs[n - 1], mid);
        extends_by(st, mid, attr_out(attrs[n - 1], mid).1);
    }
}

/// To take expressions out of a tree adds to the list, behind what is there,
/// and the attributes stay named `v0`, `v1`, ... by their places.
pub proof fn extraction_extends(jsx: &Jsx, top: Seq<Seq<char>>, st: ExtractionV)
    ensures
        extends(st, jsx_out(*jsx, top, st).1),
    decreases *jsx, 0nat,
{
    match jsx {
        Jsx::Element { start, name, closing, attrs, children } => {
            let named = name_out(*name, *closing, top, st).2;
            extends_itself(st);
            if let Some(expr) = taken_name(*name, top) {
                extends_with(st, expr);
            }
            let attributed = attrs_out(attrs@, attrs@.len(), named).1;
            attrs_extend(attrs@, attrs@.len(), named);
            extends_by(st, named, attributed);
            children_extend(children@, children@.len(), top, attributed);
            extends_by(st, attributed, jsx_out(*jsx, top, st).1);
        },
        Jsx::Fragment { start, children } => children_extend(
            children@,
            children@.len(),
            top,
            st,
        ),
    }
}

pub(crate) proof fn child_extends(child: &Child, top: Seq<Seq<char>>, st: ExtractionV)
    ensures
        extends(st, child_out(*child, top, st).1),
    decreases *child, 0nat,
{
    extends_itself(st);
    assert forall|expr: ExprV| extends(st, #[trigger] st.with_expr(expr)) by {
        extends_with(st, expr);
    }
    match child {
        Child::Jsx(jsx) => extraction_extends(jsx, top, st),
        _ => {},
    }
}

pub(crate) proof fn children_extend(children: Seq<Child>, n: nat, top: Seq<Seq<char>>, st: ExtractionV)
    ensures
        extends(st, children_out(children, n, top, st).1),
    decreases children, n,
{
    if n == 0 || n > children.len() {
        extends_itself(st);
    } else {
        children_extend(children, (n - 1) as nat, top, st);
        let mid = children_out(children, (n - 1) as nat, top, st).1;
        child_extends(&children[n - 1], top, mid);
        extends_by(st, mid, child_out(children[n - 1], top, mid).1);
    }
}

// ---------------------------------------------------------------------------
// Code
// ---------------------------------------------------------------------------

/// `name`.
fn reference(name: &str) -> (expr: Rc<Expr>)
    ensures
        expr_value(*expr) == ExprV::Ident(name@),
{
    Rc::new(Expr::Ident(copied(name)))
}

/// `_props.key`.
pub fn build_props_member(key: &str) -> (expr: Rc<Expr>)
    ensures
        expr_value(*expr) == props_member_v(key@),
{
    let object = reference("_props");
    let expr = Expr::Member { object, property: copied(key) };
    proof {
        reveal_with_fuel(expr_value, 2);
    }
    Rc::new(expr)
}

/// `_props.key`, as the name of an element.
pub fn build_jsx_member_name(key: &str) -> (name: Name)
    ensures
        name@ == props_name_v(key@),
{
    Name::Member(
        Rc::new(MemberName { object: NameObject::Ident(copied("_props")), property: copied(key) }),
    )
}

impl Extraction {
    /// Nothing yet.
    pub fn new() -> (st: Extraction)
        ensures
            st@ == (ExtractionV { attrs: Seq::empty(), vars: Seq::empty() }),
    {
        Extraction { attrs: Vec::new(), vars: Vec::new() }
    }

    /// Adds `vN={expr}`, and gives `vN`.
    pub fn push_attribute(&mut self, expr: Rc<Expr>) -> (key: String)
        ensures
            final(self)@ == old(self)@.with_expr(expr_value(*expr)),
            key@ == key_v(old(self)@.attrs.len()),
    {
        let key = joined("v", decimal_text(self.attrs.len()).as_str());
        let attr = Attr::Named {
            name: AttrName::Ident(copied(key.as_str())),
            value: AttrValue::Container(Some(expr)),
        };
        proof {
            assert(attr_value(attr) == kept_v(key@, expr_value(*expr)));
        }
        self.attrs.push(attr);
        key
    }

    /// Adds `vN={expr}`, and gives `_props.vN`.
    pub fn push_attribute_and_get_replacement(&mut self, expr: Rc<Expr>) -> (read: Rc<Expr>)
        ensures
            final(self)@ == old(self)@.with_expr(expr_value(*expr)),
            expr_value(*read) == old(self)@.next_read(),
    {
        let key = self.push_attribute(expr);
        build_props_member(key.as_str())
    }
}

/// The path of an element's name, as an expression.
pub fn jsx_member_to_expression(member: &MemberName) -> (expr: Rc<Expr>)
    ensures
        expr_value(*expr) == member_expr_v(*member),
    decreases member,
{
    let object = match &member.object {
        NameObject::Ident(name) => reference(name.as_str()),
        NameObject::Member(inner) => jsx_member_to_expression(inner),
        NameObject::This => Rc::new(Expr::This),
    };
    proof {
        reveal_with_fuel(expr_value, 2);
    }
    Rc::new(Expr::Member { object, property: copied(member.property.as_str()) })
}

/// The component that an element's name stands for, where it is to be taken
/// out.
pub fn jsx_element_name_to_expression(name: &Name, top: &Vec<String>) -> (expr: Option<Rc<Expr>>)
    ensures
        option_value(expr) == taken_name(*name, texts(top@)),
{
    match name {
        Name::Reference(text) => if is_component_name_pattern(text.as_str()) && !holds(
            top,
            text.as_str(),
        ) {
            Some(reference(text.as_str()))
        } else {
            None
        },
        Name::Member(member) => Some(jsx_member_to_expression(member)),
        _ => None,
    }
}

/// A copy of a name.
pub fn copied_name(name: &Name) -> (copy: Name)
    ensures
        copy@ == name@,
{
    match name {
        Name::Plain(text) => Name::Plain(text.clone()),
        Name::Reference(text) => Name::Reference(text.clone()),
        Name::Member(member) => Name::Member(share(member)),
        Name::Opaque(id) => Name::Opaque(*id),
    }
}

fn copied_value(value: &AttrValue) -> (copy: AttrValue)
    ensures
        copy == *value,
{
    match value {
        AttrValue::Absent => AttrValue::Absent,
        AttrValue::Text(id) => AttrValue::Text(*id),
        AttrValue::Container(None) => AttrValue::Container(None),
        AttrValue::Container(Some(expr)) => AttrValue::Container(Some(share(expr))),
        AttrValue::Jsx(jsx) => AttrValue::Jsx(share(jsx)),
    }
}

/// Takes the name of an element out where it stands for a component that may
/// change; gives the names that are left.
pub fn extract_from_jsx_element(
    st: &mut Extraction,
    top: &Vec<String>,
    name: &Name,
    closing: &Option<Name>,
) -> (left: (Name, Option<Name>))
    ensures
        (left.0@, option_name(left.1), final(st)@) == name_out(
            *name,
            *closing,
            texts(top@),
            old(st)@,
        ),
{
    match jsx_element_name_to_expression(name, top) {
        None => {
            let behind = match closing {
                None => None,
                Some(closing) => Some(copied_name(closing)),
            };
            (copied_name(name), behind)
        },
        Some(expr) => {
            let key = st.push_attribute(expr);
            let behind = match closing {
                None => None,
                Some(_) => Some(build_jsx_member_name(key.as_str())),
            };
            (build_jsx_member_name(key.as_str()), behind)
        },
    }
}

/// The value of an attribute's value.
pub open spec fn attr_value_value(value: AttrValue) -> AttrValueV {
    match value {
        AttrValue::Absent => AttrValueV::Absent,
        AttrValue::Text(id) => AttrValueV::Text(id),
        AttrValue::Container(expr) => AttrValueV::Container(option_value(expr)),
        AttrValue::Jsx(jsx) => AttrValueV::Jsx(jsx_value(*jsx)),
    }
}

/// Takes the expression out of an attribute's value.
pub fn extract_from_normal_attribute(st: &mut Extraction, value: &AttrValue) -> (left: AttrValue)
    ensures
        (attr_value_value(left), final(st)@) == value_out(*value, old(st)@),
{
    match value {
        AttrValue::Container(Some(expr)) => {
            let read = st.push_attribute_and_get_replacement(share(expr));
            AttrValue::Container(Some(read))
        },
        AttrValue::Jsx(jsx) => {
            let read = st.push_attribute_and_get_replacement(Rc::new(Expr::Jsx(share(jsx))));
            AttrValue::Container(Some(read))
        },
        _ => copied_value(value),
    }
}

/// The expression inside parentheses and wrappers of the types.
pub fn unwrap_expression(expr: &Expr) -> (inner: &Expr)
    ensures
        *inner == unwrapped(*expr),
    decreases expr,
{
    match expr {
        Expr::Paren(inner) => unwrap_expression(inner),
        Expr::Typed { expr: inner, .. } => unwrap_expression(inner),
        _ => expr,
    }
}

/// `name(_arg)`.
fn ref_called(name: &str) -> (expr: Rc<Expr>)
    ensures
        expr_value(*expr) == (ExprV::Call {
            form: Form::Plain,
            callee: Box::new(ExprV::Ident(name@)),
            args: Seq::empty().push(ArgV::Expr(ExprV::Ident("_arg"@))),
        }),
{
    let mut args: Vec<Arg> = Vec::new();
    args.push(Arg::Expr(reference("_arg")));
    proof {
        assert(arg_values(args@) == Seq::empty().push(ArgV::Expr(ExprV::Ident("_arg"@))));
        reveal_with_fuel(expr_value, 2);
    }
    Rc::new(Expr::Call { form: Form::Plain, callee: reference(name), args })
}

/// `name = _arg`.
fn ref_assigned(name: &str) -> (expr: Rc<Expr>)
    ensures
        expr_value(*expr) == (ExprV::Assign {
            form: Form::Plain,
            target: Box::new(ExprV::Ident(name@)),
            value: Box::new(ExprV::Ident("_arg"@)),
        }),
{
    let target = reference(name);
    let value = reference("_arg");
    proof {
        reveal_with_fuel(expr_value, 2);
    }
    Rc::new(Expr::Assign { form: Form::Plain, target, value })
}

/// `typeof name === "function"`.
fn ref_test(name: &str) -> (expr: Rc<Expr>)
    ensures
        expr_value(*expr) == (ExprV::StrictEquality {
            left: Box::new(ExprV::Typeof(Box::new(ExprV::Ident(name@)))),
            right: Box::new(ExprV::Text("function"@)),
        }),
{
    let target = reference(name);
    proof {
        reveal_with_fuel(expr_value, 3);
    }
    let kind = Rc::new(Expr::Typeof(target));
    Rc::new(Expr::StrictEquality { left: kind, right: Rc::new(Expr::Text(copied("function"))) })
}

/// `test ? consequent : alternate`.
fn choosing(test: Rc<Expr>, consequent: Rc<Expr>, alternate: Rc<Expr>) -> (expr: Rc<Expr>)
    ensures
        expr_value(*expr) == (ExprV::Conditional {
            test: Box::new(expr_value(*test)),
            consequent: Box::new(expr_value(*consequent)),
            alternate: Box::new(expr_value(*alternate)),
        }),
{
    Rc::new(Expr::Conditional { test, consequent, alternate })
}

/// `(_arg) => result`.
fn arg_arrow(result: Rc<Expr>) -> (expr: Rc<Expr>)
    ensures
        expr_value(*expr) == (ExprV::Arrow {
            params: ParamsV::One("_arg"@),
            expression: true,
            body: Seq::empty().push(StmtV::Expr(expr_value(*result))),
        }),
{
    let mut body: Vec<Rc<Stmt>> = Vec::new();
    let whole = Rc::new(Stmt::Expr(result));
    proof {
        assert(stmt_value(*whole) == StmtV::Expr(expr_value(*result)));
    }
    body.push(whole);
    let params = Params::One(copied("_arg"));
    proof {
        assert(stmt_values(body@) == Seq::empty().push(stmt_value(*whole)));
        assert(params_value(params) == ParamsV::One("_arg"@));
    }
    Rc::new(Expr::Arrow { params, expression: true, body })
}

/// The callback that calls a name where it is a function, and sets it where it
/// is none.
pub fn ref_callback(name: &str) -> (expr: Rc<Expr>)
    ensures
        expr_value(*expr) == ref_callback_v(name@),
{
    arg_arrow(choosing(ref_test(name), ref_called(name), ref_assigned(name)))
}

/// Takes the expression out of a `ref`.
pub fn extract_from_ref(st: &mut Extraction, value: &AttrValue) -> (left: AttrValue)
    ensures
        match *value {
            AttrValue::Container(Some(expr)) => attr_value_value(left) == AttrValueV::Container(
                Some(old(st)@.next_read()),
            ) && final(st)@ == old(st)@.with_expr(ref_target_v(*expr)),
            _ => left == *value && final(st)@ == old(st)@,
        },
{
    match value {
        AttrValue::Container(Some(expr)) => {
            let target = match unwrap_expression(expr) {
                Expr::Ident(name) => ref_callback(name.as_str()),
                _ => share(expr),
            };
            let read = st.push_attribute_and_get_replacement(target);
            AttrValue::Container(Some(read))
        },
        _ => copied_value(value),
    }
}

/// Takes the expression and the directive out of a `use:` attribute.
pub fn extract_from_use_directive(st: &mut Extraction, name: &str, value: &AttrValue) -> (left:
    AttrValue)
    ensures
        ({
            let (kept, mid) = match *value {
                AttrValue::Container(_) => value_out(*value, old(st)@),
                _ => (attr_value_value(*value), old(st)@),
            };
            let named = mid.with_expr(ExprV::Ident(name@));
            &&& attr_value_value(left) == kept
            &&& final(st)@ == (ExtractionV {
                vars: named.vars.push(
                    DeclaratorV { pattern: PatternV::Ident(name@), init: Some(mid.next_read()) },
                ),
                ..named
            })
        }),
{
    let left = match value {
        AttrValue::Container(_) => extract_from_normal_attribute(st, value),
        _ => copied_value(value),
    };
    let ghost mid = st@;
    let read = st.push_attribute_and_get_replacement(reference(name));
    let declarator = Declarator { pattern: Pattern::Ident(copied(name)), init: Some(read) };
    proof {
        assert(declarator_value(declarator) == (DeclaratorV {
            pattern: PatternV::Ident(name@),
            init: Some(mid.next_read()),
        }));
    }
    st.vars.push(declarator);
    left
}

/// Takes the expressions out of an attribute.
fn extract_from_attribute(st: &mut Extraction, attr: &Attr) -> (left: Attr)
    ensures
        (attr_value(left), final(st)@) == attr_out(*attr, old(st)@),
{
    match attr {
        Attr::Spread(expr) => {
            let read = st.push_attribute_and_get_replacement(share(expr));
            Attr::Spread(read)
        },
        Attr::Named { name: AttrName::Namespaced { namespace, name }, value } => {
            let left = if same(namespace.as_str(), "use") {
                extract_from_use_directive(st, name.as_str(), value)
            } else {
                extract_from_normal_attribute(st, value)
            };
            Attr::Named {
                name: AttrName::Namespaced { namespace: namespace.clone(), name: name.clone() },
                value: left,
            }
        },
        Attr::Named { name: AttrName::Ident(name), value } => {
            let left = if same(name.as_str(), "ref") {
                extract_from_ref(st, value)
            } else {
                extract_from_normal_attribute(st, value)
            };
            Attr::Named { name: AttrName::Ident(name.clone()), value: left }
        },
    }
}

/// Takes the expressions out of the attributes of an element.
pub fn extract_from_attributes(st: &mut Extraction, attrs: &Vec<Attr>) -> (left: Vec<Attr>)
    ensures
        (attr_values(left@), final(st)@) == attrs_out(attrs@, attrs@.len(), old(st)@),
{
    let mut left: Vec<Attr> = Vec::new();
    let mut i: usize = 0;
    while i < attrs.len()
        invariant
            i <= attrs.len(),
            (attr_values(left@), st@) == attrs_out(attrs@, i as nat, old(st)@),
        decreases attrs.len() - i,
    {
        let attr = extract_from_attribute(st, &attrs[i]);
        left.push(attr);
        i = i + 1;
    }
    left
}

/// Takes the expressions out of a JSX tree; gives what is left.
pub fn extract_jsx_expressions(st: &mut Extraction, top: &Vec<String>, jsx: &Jsx) -> (left: Jsx)
    ensures
        (jsx_value(left), final(st)@) == jsx_out(*jsx, texts(top@), old(st)@),
    decreases jsx, 0nat,
{
    match jsx {
        Jsx::Element { start, name, closing, attrs, children } => {
            let (new_name, new_closing) = extract_from_jsx_element(st, top, name, closing);
            let new_attrs = extract_from_attributes(st, attrs);
            let new_children = extract_from_children(st, top, children);
            Jsx::Element {
                start: *start,
                name: new_name,
                closing: new_closing,
                attrs: new_attrs,
                children: new_children,
            }
        },
        Jsx::Fragment { start, children } => {
            let new_children = extract_from_children(st, top, children);
            Jsx::Fragment { start: *start, children: new_children }
        },
    }
}

/// Takes the expressions out of a child.
fn extract_from_child(st: &mut Extraction, top: &Vec<String>, child: &Child) -> (left: Child)
    ensures
        (child_value(left), final(st)@) == child_out(*child, texts(top@), old(st)@),
    decreases child, 0nat,
{
    proof {
        reveal_with_fuel(child_out, 2);
    }
    match child {
        Child::Text(id) => Child::Text(*id),
        Child::Jsx(jsx) => {
            let left = extract_jsx_expressions(st, top, jsx);
            Child::Jsx(Rc::new(left))
        },
        Child::Container(None) => Child::Container(None),
        Child::Container(Some(expr)) => {
            let read = st.push_attribute_and_get_replacement(share(expr));
            Child::Container(Some(read))
        },
        Child::Spread(expr) => {
            let read = st.push_attribute_and_get_replacement(share(expr));
            Child::Spread(read)
        },
    }
}

fn extract_from_children(st: &mut Extraction, top: &Vec<String>, children: &Vec<Child>) -> (left:
    Vec<Child>)
    ensures
        (child_values(left@), final(st)@) == children_out(
            children@,
            children@.len(),
            texts(top@),
            old(st)@,
        ),
    decreases children, 1nat,
{
    let mut left: Vec<Child> = Vec::new();
    let mut i: usize = 0;
    while i < children.len()
        invariant
            i <= children.len(),
            (child_values(left@), st@) == children_out(
                children@,
                i as nat,
                texts(top@),
                old(st)@,
            ),
        decreases children.len() - i,
    {
        let child = extract_from_child(st, top, &children[i]);
        left.push(child);
        i = i + 1;
    }
    left
}

} // verus!
