//! What is taken out of the attributes and the children of a tree.

use crate::refresh_extract::{attr_out, child_out, name_out, ref_target_v, taken_name, ExtractionV};
use crate::refresh_shape::{holds_taken, reads_taken};
use crate::refresh_tree::{
    attr_value, expr_value, Attr, AttrName, AttrNameV, AttrV, AttrValue, AttrValueV, Child, ChildV,
    DeclaratorV, Expr, ExprV, Name, NameObjectV, NameV, PatternV,
};
use std::rc::Rc;
use vstd::prelude::*;

verus! {

/// One expression was taken, and what is left reads it.
pub open spec fn takes(before: ExtractionV, after: ExtractionV, read: ExprV, expr: ExprV) -> bool {
    &&& after.attrs.len() == before.attrs.len() + 1
    &&& after.attrs.drop_last() == before.attrs
    &&& holds_taken(after.attrs.last(), before.attrs.len(), expr)
    &&& reads_taken(read, before.attrs.len())
}

spec fn value_of(expr: &Rc<Expr>) -> ExprV {
    expr_value(**expr)
}

spec fn target_of(expr: &Rc<Expr>) -> ExprV {
    ref_target_v(**expr)
}

proof fn one_is_taken(st: ExtractionV, expr: ExprV)
    ensures
        takes(st, st.with_expr(expr), st.next_read(), expr),
        st.with_expr(expr).vars == st.vars,
{
    crate::refresh_shape::what_is_taken_is_read(st, expr);
    assert(st.with_expr(expr).attrs.drop_last() =~= st.attrs);
}

/// The expression of a child is taken out, and the child stays what it is; a text
/// stays.
pub proof fn a_child_stays_what_it_is(child: &Child, top: Seq<Seq<char>>, st: ExtractionV)
    ensures
        ({
            let (left, after) = child_out(*child, top, st);
            match *child {
                Child::Text(id) => left == ChildV::Text(id) && after == st,
                Child::Jsx(_) => left is Jsx,
                Child::Container(None) => left == ChildV::Container(None) && after == st,
                Child::Container(Some(expr)) => left matches ChildV::Container(Some(read)) && takes(
                    st,
                    after,
                    read,
                    expr_value(*expr),
                ) && after.vars == st.vars,
                Child::Spread(expr) => left matches ChildV::Spread(read) && takes(
                    st,
                    after,
                    read,
                    expr_value(*expr),
                ) && after.vars == st.vars,
            }
        }),
{
    reveal_with_fuel(child_out, 2);
    match child {
        Child::Container(Some(expr)) => {
            one_is_taken(st, value_of(expr));
        },
        Child::Spread(expr) => {
            one_is_taken(st, value_of(expr));
        },
        _ => {},
    }
}

/// What is spread is taken out and spread where it is read.
pub proof fn a_spread_is_taken(expr: Rc<Expr>, st: ExtractionV)
    ensures
        ({
            let (left, after) = attr_out(Attr::Spread(expr), st);
            left matches AttrV::Spread(read) && takes(st, after, read, expr_value(*expr))
                && after.vars == st.vars
        }),
{
    one_is_taken(st, value_of(&expr));
}

/// A ref is taken out as what is called or assigned.
pub proof fn a_ref_is_taken_as_its_target(name: String, expr: Rc<Expr>, st: ExtractionV)
    requires
        name@ == "ref"@,
    ensures
        ({
            let attr = Attr::Named {
                name: AttrName::Ident(name),
                value: AttrValue::Container(Some(expr)),
            };
            let (left, after) = attr_out(attr, st);
            left matches AttrV::Named { name: kept, value: AttrValueV::Container(Some(read)) }
                && kept == AttrNameV::Ident("ref"@) && takes(st, after, read, ref_target_v(*expr))
                && after.vars == st.vars
        }),
{
    one_is_taken(st, target_of(&expr));
}

/// A ref of no expression stays.
pub proof fn an_empty_ref_stays(name: String, value: AttrValue, st: ExtractionV)
    requires
        name@ == "ref"@,
        !(value matches AttrValue::Container(Some(_))),
    ensures
        ({
            let attr = Attr::Named { name: AttrName::Ident(name), value };
            attr_out(attr, st) == (attr_value(attr), st)
        }),
{
}

/// The value of any other attribute is taken out, under the same name.
pub proof fn an_attribute_keeps_its_name(name: String, expr: Rc<Expr>, st: ExtractionV)
    requires
        name@ != "ref"@,
    ensures
        ({
            let attr = Attr::Named {
                name: AttrName::Ident(name),
                value: AttrValue::Container(Some(expr)),
            };
            let (left, after) = attr_out(attr, st);
            left matches AttrV::Named { name: kept, value: AttrValueV::Container(Some(read)) }
                && kept == AttrNameV::Ident(name@) && takes(st, after, read, expr_value(*expr))
                && after.vars == st.vars
        }),
{
    one_is_taken(st, value_of(&expr));
}

/// The directive of an attribute `use:` is taken out beside its value, and a
/// variable of its name reads it.
pub proof fn a_directive_is_taken(namespace: String, name: String, expr: Rc<Expr>, st: ExtractionV)
    requires
        namespace@ == "use"@,
    ensures
        ({
            let attr = Attr::Named {
                name: AttrName::Namespaced { namespace, name },
                value: AttrValue::Container(Some(expr)),
            };
            let (left, after) = attr_out(attr, st);
            let n = st.attrs.len();
            &&& left matches AttrV::Named { name: kept, value: AttrValueV::Container(Some(read)) }
                && kept == (AttrNameV::Namespaced { namespace: "use"@, name: name@ })
                && reads_taken(read, n)
            &&& after.attrs.len() == n + 2
            &&& holds_taken(after.attrs[n as int], n, expr_value(*expr))
            &&& holds_taken(after.attrs[n + 1int], n + 1, ExprV::Ident(name@))
            &&& after.attrs.take(n as int) == st.attrs
            &&& after.vars.len() == st.vars.len() + 1
            &&& after.vars.drop_last() == st.vars
            &&& after.vars.last() matches DeclaratorV { pattern, init: Some(read) } && pattern
                == PatternV::Ident(name@) && reads_taken(read, n + 1)
        }),
{
    let first = st.with_expr(value_of(&expr));
    one_is_taken(st, value_of(&expr));
    one_is_taken(first, ExprV::Ident(name@));
    let attr = Attr::Named {
        name: AttrName::Namespaced { namespace, name },
        value: AttrValue::Container(Some(expr)),
    };
    let after = attr_out(attr, st).1;
    let n = st.attrs.len() as int;
    assert(after.attrs == first.with_expr(ExprV::Ident(name@)).attrs);
    assert(after.attrs.take(n) =~= st.attrs);
    assert(after.vars.drop_last() =~= st.vars);
    assert(after.attrs[n] == first.attrs.last());
    assert(after.attrs[n + 1] == after.attrs.last());
}

/// An attribute of another namespace keeps its name.
pub proof fn a_namespaced_attribute_keeps_its_name(
    namespace: String,
    name: String,
    expr: Rc<Expr>,
    st: ExtractionV,
)
    requires
        namespace@ != "use"@,
    ensures
        ({
            let attr = Attr::Named {
                name: AttrName::Namespaced { namespace, name },
                value: AttrValue::Container(Some(expr)),
            };
            let (left, after) = attr_out(attr, st);
            left matches AttrV::Named { name: kept, value: AttrValueV::Container(Some(read)) }
                && kept == (AttrNameV::Namespaced { namespace: namespace@, name: name@ }) && takes(
                st,
                after,
                read,
                expr_value(*expr),
            ) && after.vars == st.vars
        }),
{
    one_is_taken(st, value_of(&expr));
}

/// A tag that is a component is taken out, and both tags read it; any other tag
/// stays.
pub proof fn both_tags_read_the_component(
    name: Name,
    closing: Option<Name>,
    top: Seq<Seq<char>>,
    st: ExtractionV,
)
    ensures
        ({
            let (opened, closed, after) = name_out(name, closing, top, st);
            &&& closed is Some <==> closing is Some
            &&& taken_name(name, top) is None ==> opened == name@ && after == st && (closing matches
                Some(end) ==> closed == Some(end@))
            &&& taken_name(name, top) matches Some(expr) ==> (closed is Some ==> closed == Some(
                opened,
            )) && after.attrs.len() == st.attrs.len() + 1 && after.attrs.drop_last() == st.attrs
                && holds_taken(after.attrs.last(), st.attrs.len(), expr) && (opened matches
                NameV::Member(member) && member.object == NameObjectV::Ident("_props"@)
                && reads_taken(
                ExprV::Member {
                    object: Box::new(ExprV::Ident("_props"@)),
                    property: member.property,
                },
                st.attrs.len(),
            ))
        }),
{
    if let Some(expr) = taken_name(name, top) {
        one_is_taken(st, expr);
    }
}

} // verus!
