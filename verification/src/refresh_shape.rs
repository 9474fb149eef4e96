//! What the templates of a refresh look like, and how they are named.

use crate::refresh_extract::{
    jsx_out, member_expr_v, ref_callback_v, ref_target_v, taken_name, unwrapped, value_out,
    ExtractionV,
};
use crate::refresh_names::{
    bound_names, component_ish, component_pattern, declared, descriptive_name, first_variable,
    is_skip, is_skipped, may_contain_jsx, optional_name, top_level_names, Comment,
};
use crate::refresh_tree::{
    expr_value, jsx_value, ArgV, AttrV, AttrNameV, AttrValue, AttrValueV, Declarator, DeclaratorV,
    Expr, ExprV, Function, Jsx, JsxV, MemberName, Name, NameObject, NameV, ParamsV, Pattern,
    PatternV, Stmt, StmtV,
};
use crate::refresh_walk::{nothing_out, single_v, template_base, SceneV, WalkV};
use std::rc::Rc;
use vstd::prelude::*;

verus! {

// ---------------------------------------------------------------------------
// Templates
// ---------------------------------------------------------------------------

/// An expression is a function of `_props` that gives a tree, behind the
/// variables that the tree needs.
pub open spec fn gives_tree(body: ExprV, tree: JsxV, vars: Seq<DeclaratorV>) -> bool {
    body matches ExprV::Arrow { params, expression, body } && params == ParamsV::One("_props"@)
        && if vars.len() == 0 {
        expression && body.len() == 1 && body[0] == StmtV::Expr(ExprV::Jsx(Box::new(tree)))
    } else {
        !expression && body.len() == 2 && (body[0] matches StmtV::Variables(variables)
            && variables.declarators == vars) && body[1] == StmtV::Return(
            Some(ExprV::Jsx(Box::new(tree))),
        )
    }
}

/// A statement lets a name stand for a value.
pub open spec fn lets(stmt: StmtV, name: Seq<char>, value: ExprV) -> bool {
    stmt matches StmtV::Variables(variables) && variables.declarators.len() == 1
        && variables.declarators[0].pattern == PatternV::Ident(name)
        && variables.declarators[0].init == Some(value)
}

/// An expression is an element of this name and with these attributes, and
/// nothing else.
pub open spec fn uses(expr: ExprV, name: Seq<char>, attrs: Seq<AttrV>) -> bool {
    expr matches ExprV::Jsx(jsx) && (*jsx matches JsxV::Element {
        name: n,
        closing,
        attrs: a,
        children,
        ..
    } && n == NameV::Plain(name) && closing is None && a == attrs && children.len() == 0)
}

/// A tree out of which nothing can be taken stays.  Any other becomes a use of
/// its template, which is given all that was taken out, and the template, which
/// gives what is left of the tree, is added under a name of its own.
pub proof fn a_tree_becomes_a_use(jsx: Jsx, desc: Seq<char>, scene: SceneV, st: WalkV)
    ensures
        ({
            let (left, taken) = jsx_out(jsx, scene.top, nothing_out());
            let (out, after) = single_v(jsx, desc, scene, st);
            if taken.attrs.len() == 0 {
                out == ExprV::Jsx(Box::new(jsx_value(jsx))) && after == st
            } else {
                let name = after.taken.last();
                &&& after.taken == st.taken.push(name)
                &&& !st.taken.contains(name)
                &&& uses(out, name, taken.attrs)
                &&& after.insertions.len() == st.insertions.len() + 1
                &&& after.insertions.drop_last() == st.insertions
                &&& after.insertions.last() matches StmtV::Variables(variables)
                    && variables.declarators.len() == 1 && (
                variables.declarators[0].init matches Some(body) && lets(
                    after.insertions.last(),
                    name,
                    body,
                ) && gives_tree(body, left, taken.vars))
            }
        }),
{
    let (left, taken) = jsx_out(jsx, scene.top, nothing_out());
    let (out, after) = single_v(jsx, desc, scene, st);
    if taken.attrs.len() > 0 {
        crate::refresh_names::free_name_is_free(template_base(desc), st.taken);
        assert(after.taken =~= st.taken.push(after.taken.last()));
        assert(after.insertions.drop_last() =~= st.insertions);
    }
}

/// A template is named after the component, or behind `JSX_` after what is none.
pub proof fn a_template_is_named_after_its_component(desc: Seq<char>)
    ensures
        desc.len() > 0 && 'A' <= desc[0] && desc[0] <= 'Z' ==> template_base(desc) == desc,
        desc.len() == 0 || desc[0] < 'A' || desc[0] > 'Z' ==> template_base(desc) == "JSX_"@ + desc,
{
}

// ---------------------------------------------------------------------------
// What is taken out
// ---------------------------------------------------------------------------

/// An expression reads what was taken out under this number.
pub open spec fn reads_taken(read: ExprV, n: nat) -> bool {
    read matches ExprV::Member { object, property } && *object == ExprV::Ident("_props"@)
        && property == seq!['v'] + crate::text::decimal(n)
}

/// An attribute holds an expression under this number.
pub open spec fn holds_taken(attr: AttrV, n: nat, expr: ExprV) -> bool {
    attr matches AttrV::Named { name, value } && name == AttrNameV::Ident(
        seq!['v'] + crate::text::decimal(n),
    ) && value == AttrValueV::Container(Some(expr))
}

/// What is taken out next is held by the next attribute, and read from there.
pub proof fn what_is_taken_is_read(st: ExtractionV, expr: ExprV)
    ensures
        reads_taken(st.next_read(), st.attrs.len()),
        st.with_expr(expr).attrs.len() == st.attrs.len() + 1,
        st.with_expr(expr).attrs.drop_last() == st.attrs,
        holds_taken(st.with_expr(expr).attrs.last(), st.attrs.len(), expr),
        st.with_expr(expr).vars == st.vars,
{
    reveal_strlit("v");
    assert("v"@ =~= seq!['v']);
    assert(st.with_expr(expr).attrs.drop_last() =~= st.attrs);
}

/// The value of an attribute is taken out where it is computed, or a tree, and
/// stays where it is a text.
pub proof fn a_value_is_taken(value: AttrValue, st: ExtractionV)
    ensures
        ({
            let (left, after) = value_out(value, st);
            match value {
                AttrValue::Absent => left == AttrValueV::Absent && after == st,
                AttrValue::Text(id) => left == AttrValueV::Text(id) && after == st,
                AttrValue::Container(None) => left == AttrValueV::Container(None) && after == st,
                AttrValue::Container(Some(expr)) => (left matches AttrValueV::Container(Some(read))
                    && reads_taken(read, st.attrs.len())) && after == st.with_expr(
                    expr_value(*expr),
                ),
                AttrValue::Jsx(jsx) => (left matches AttrValueV::Container(Some(read))
                    && reads_taken(read, st.attrs.len())) && after == st.with_expr(
                    ExprV::Jsx(Box::new(jsx_value(*jsx))),
                ),
            }
        }),
{
    what_is_taken_is_read(st, ExprV::This);
}

/// A component is taken out where it is not known to the whole file; a member of
/// something always is.
pub proof fn a_component_is_taken(name: Name, top: Seq<Seq<char>>)
    ensures
        name matches Name::Reference(text) ==> (taken_name(name, top) is Some ==> taken_name(
            name,
            top,
        ) == Some(ExprV::Ident(text@)) && !top.contains(text@)),
        name matches Name::Reference(text) ==> (component_pattern(text@) && !top.contains(text@)
            ==> taken_name(name, top) is Some),
        name is Member ==> taken_name(name, top) is Some,
        name is Plain ==> taken_name(name, top) is None,
{
}

/// A member name is the member of its object.
pub proof fn a_member_name_is_a_member(name: MemberName)
    ensures
        member_expr_v(name) matches ExprV::Member { object, property } && property == name.property@
            && (match name.object {
            NameObject::Ident(text) => *object == ExprV::Ident(text@),
            NameObject::Member(inner) => *object == member_expr_v(*inner),
            NameObject::This => *object == ExprV::This,
        }),
{
}

/// A ref that is a variable is called where it holds a function, and assigned
/// where it does not, with the argument of the callback.
pub proof fn a_ref_is_called_or_assigned(name: Seq<char>)
    ensures
        ref_callback_v(name) matches ExprV::Arrow { params, expression, body } && params
            == ParamsV::One("_arg"@) && expression && body.len() == 1 && (
        body[0] matches StmtV::Expr(choice) && (choice matches ExprV::Conditional {
            test,
            consequent,
            alternate,
        } && (*test matches ExprV::StrictEquality { left, right } && *left == ExprV::Typeof(
            Box::new(ExprV::Ident(name)),
        ) && *right == ExprV::Text("function"@)) && (
        *consequent matches ExprV::Call { callee, args, .. } && *callee == ExprV::Ident(name)
            && args.len() == 1 && args[0] == ArgV::Expr(ExprV::Ident("_arg"@))) && (
        *alternate matches ExprV::Assign { target, value, .. } && *target == ExprV::Ident(name)
            && *value == ExprV::Ident("_arg"@)))),
{
}

/// A ref that is no variable is taken out as it is.
pub proof fn a_ref_is_taken(expr: Expr)
    ensures
        expr matches Expr::Ident(name) ==> ref_target_v(expr) == ref_callback_v(name@),
        expr is Arrow || expr is Function || expr is Member || expr is Call ==> ref_target_v(expr)
            == expr_value(expr),
        expr matches Expr::Paren(inner) ==> unwrapped(expr) == unwrapped(*inner),
{
}

// ---------------------------------------------------------------------------
// Names
// ---------------------------------------------------------------------------

/// A component has a name that begins with a capital letter.
pub proof fn a_component_begins_with_a_capital(name: Seq<char>)
    ensures
        component_ish(name) <==> name.len() > 0 && 'A' <= name[0] && name[0] <= 'Z',
        component_pattern(name) <==> name.len() > 0 && (('A' <= name[0] && name[0] <= 'Z')
            || name[0] == '_'),
{
}

/// The name of a statement is that of the function, or of the first variable that
/// has one.
pub proof fn a_statement_has_the_name_of_what_it_declares(stmt: Stmt)
    ensures
        stmt matches Stmt::Function(function) ==> (function.name matches Some(name)
            ==> descriptive_name(stmt) == name@),
        stmt matches Stmt::Function(function) ==> (function.name is None ==> descriptive_name(stmt)
            == "template"@),
        stmt matches Stmt::Variables(variables) ==> (variables.declarators@.len() > 0 ==> (
        variables.declarators@[0].pattern matches Pattern::Ident(name) ==> descriptive_name(stmt)
            == name@)),
        stmt is Expr || stmt is Return || stmt is Class || stmt is Import ==> descriptive_name(stmt)
            == "template"@,
{
}

/// The first variable is the first that is a plain name.
pub proof fn the_first_variable_is_the_first(declarators: Seq<Declarator>, from: nat)
    requires
        from <= declarators.len(),
    ensures
        (forall|i: int|
            from <= i < declarators.len() ==> (#[trigger] declarators[i]).pattern is Opaque)
            ==> first_variable(declarators, from) == "template"@,
        forall|k: int|
            from <= k < declarators.len() && (#[trigger] declarators[k]).pattern is Ident && (
            forall|i: int| from <= i < k ==> (#[trigger] declarators[i]).pattern is Opaque)
                ==> first_variable(declarators, from) == declarators[k].pattern->Ident_0@,
    decreases declarators.len() - from,
{
    if from < declarators.len() {
        the_first_variable_is_the_first(declarators, from + 1);
        if declarators[from as int].pattern is Opaque {
            assert forall|k: int|
                from <= k < declarators.len() && (#[trigger] declarators[k]).pattern is Ident && (
                forall|i: int| from <= i < k ==> (#[trigger] declarators[i]).pattern
                    is Opaque) implies first_variable(declarators, from)
                == declarators[k].pattern->Ident_0@ by {
                assert(k >= from + 1);
                assert forall|i: int| from + 1 <= i < k implies (
                #[trigger] declarators[i]).pattern is Opaque by {}
            }
        } else {
            assert forall|k: int|
                from <= k < declarators.len() && (#[trigger] declarators[k]).pattern is Ident && (
                forall|i: int| from <= i < k ==> (#[trigger] declarators[i]).pattern
                    is Opaque) implies first_variable(declarators, from)
                == declarators[k].pattern->Ident_0@ by {
                if k > from {
                    assert(declarators[from as int].pattern is Opaque);
                }
            }
        }
    }
}

spec fn names_at(body: Seq<Rc<Stmt>>, i: int) -> Seq<Seq<char>> {
    bound_names(*body[i])
}

/// Every name that a statement of a file binds is known to the file, and no other
/// is.
pub proof fn the_names_of_a_file(body: Seq<Rc<Stmt>>, n: nat, name: Seq<char>)
    requires
        n <= body.len(),
    ensures
        top_level_names(body, n).contains(name) <==> exists|i: int|
            0 <= i < n && bound_names(*#[trigger] body[i]).contains(name),
    decreases n,
{
    if n > 0 {
        the_names_of_a_file(body, (n - 1) as nat, name);
        let before = top_level_names(body, (n - 1) as nat);
        let here = names_at(body, n - 1);
        let all = top_level_names(body, n);
        if all.contains(name) {
            let k = choose|k: int| 0 <= k < all.len() && all[k] == name;
            if k < before.len() {
                assert(before[k] == name);
                assert(before.contains(name));
            } else {
                assert(here[k - before.len()] == name);
                assert(bound_names(*body[n - 1]).contains(name));
            }
        }
        if exists|i: int| 0 <= i < n && bound_names(*#[trigger] body[i]).contains(name) {
            let i = choose|i: int| 0 <= i < n && bound_names(*#[trigger] body[i]).contains(name);
            if i < n - 1 {
                assert(before.contains(name));
                let k = choose|k: int| 0 <= k < before.len() && before[k] == name;
                assert(all[k] == name);
            } else {
                let k = choose|k: int| 0 <= k < here.len() && here[k] == name;
                assert(all[before.len() + k] == name);
            }
        }
    }
}

/// A declaration binds the names of its patterns, and a function or a class its
/// own.
pub proof fn a_declaration_binds_its_names(declarators: Seq<Declarator>, n: nat, i: int, name: String)
    requires
        0 <= i < n <= declarators.len(),
    ensures
        declarators[i].pattern == Pattern::Ident(name) ==> declared(declarators, n).contains(name@),
        optional_name(Some(name)) == seq![name@],
        optional_name(None) == Seq::<Seq<char>>::empty(),
    decreases n,
{
    let all = declared(declarators, n);
    let before = declared(declarators, (n - 1) as nat);
    if i < n - 1 {
        a_declaration_binds_its_names(declarators, (n - 1) as nat, i, name);
        if declarators[i].pattern == Pattern::Ident(name) {
            let k = choose|k: int| 0 <= k < before.len() && before[k] == name@;
            assert(all[k] == name@);
        }
    } else if declarators[i].pattern == Pattern::Ident(name) {
        assert(all[before.len() as int] == name@);
    }
}

/// A tree is skipped by a comment of its own that says so.
pub proof fn a_comment_skips_its_tree(source: Seq<char>, comments: Seq<Comment>, start: u32)
    ensures
        is_skipped(source, comments, start) <==> exists|i: int|
            0 <= i < comments.len() && (#[trigger] comments[i]).attached_to == start && (
            crate::marker::span_text(source, comments[i].content) matches Some(text)
                && crate::text::trim(text) == "@refresh jsx-skip"@),
{
    if is_skipped(source, comments, start) {
        let i = choose|i: int|
            0 <= i < comments.len() && (#[trigger] comments[i]).attached_to == start && is_skip(
                source,
                comments[i],
            );
        assert(comments[i].attached_to == start);
    }
}

/// Imports and bare statements hold no tree; all others are searched.
pub proof fn imports_hold_no_tree(stmt: Stmt)
    ensures
        stmt is Import || stmt is Bare <==> !may_contain_jsx(stmt),
{
}

} // verus!
