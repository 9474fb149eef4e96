//! What holds of every program that the refresh transform has gone over: each
//! template has a name of its own, which was free before.

use crate::refresh_names::{
    descriptive_name, free_name_is_free, is_skipped, may_contain_jsx, top_level_names, Comment,
};
use crate::refresh_extract::{
    attr_extends, attr_out, attr_value_value, attrs_extend, attrs_out, child_extends, child_out,
    children_extend, children_out, extends, jsx_out, kept_v, key_v, name_out, props_member_v,
    props_name_v, ref_target_v, taken_name, value_out, ExtractionV,
};
use crate::refresh_tree::{
    expr_value, jsx_value, Arg, Attr, AttrName, AttrV, AttrValue, AttrValueV, Child, ChildV, Class,
    Declaration, Declarator, Exported, Expr, ExprV, Function, Jsx, JsxV, Name, NameV, Params, Part,
    Pattern, Stmt, StmtV, Variables,
};
use crate::refresh_trees::{
    arg_left, arg_trees, args_left, args_trees, body_left, body_trees, class_left, class_trees,
    declaration_left, declaration_trees, declarator_left, declarator_trees, declarators_left,
    declarators_trees, exported_left, exported_trees, expr_left, expr_trees, exprs_left,
    exprs_trees, function_left, function_trees, option_left, option_trees, other_left, other_trees,
    params_left, params_trees, part_left, part_trees, parts_left, parts_trees, pattern_left,
    pattern_trees, stmt_left, stmt_trees, stmts_left, stmts_trees, variables_left, variables_trees,
};
use crate::refresh_walk::{
    arg_p, args_p, body_p, class_p, const_v, declaration_p, declarator_p, declarators_p, exported_p,
    expr_p, exprs_p, function_p, jsx_start, name_or, nothing_out, option_p, other_p, params_p,
    part_p, parts_p, pattern_p, program_p, root_p, stmt_p, stmts_p, tail_p, template_base,
    template_body_v, use_v, variables_p, SceneV, WalkV,
};
use std::rc::Rc;
use vstd::prelude::*;

verus! {

/// The statement is `const name = ..`.
pub open spec fn declares(stmt: StmtV, name: Seq<char>) -> bool {
    exists|body: ExprV| stmt == #[trigger] const_v(name, body)
}

/// Names and templates were added, as many of the ones as of the others, and
/// each new template declares the new name of its place.  A list of names
/// without repetition still has none.
pub open spec fn grows(st: WalkV, later: WalkV) -> bool {
    &&& st.taken.len() <= later.taken.len()
    &&& later.taken.take(st.taken.len() as int) == st.taken
    &&& st.insertions.len() <= later.insertions.len()
    &&& later.insertions.take(st.insertions.len() as int) == st.insertions
    &&& later.taken.len() - st.taken.len() == later.insertions.len() - st.insertions.len()
    &&& forall|i: int|
        st.insertions.len() <= i < later.insertions.len() ==> declares(
            #[trigger] later.insertions[i],
            later.taken[i - st.insertions.len() + st.taken.len()],
        )
    &&& st.taken.no_duplicates() ==> later.taken.no_duplicates()
}

proof fn grows_itself(st: WalkV)
    ensures
        grows(st, st),
{
    assert(st.taken.take(st.taken.len() as int) =~= st.taken);
    assert(st.insertions.take(st.insertions.len() as int) =~= st.insertions);
}

proof fn grows_by(st: WalkV, mid: WalkV, later: WalkV)
    requires
        grows(st, mid),
        grows(mid, later),
    ensures
        grows(st, later),
{
    assert(later.taken.take(st.taken.len() as int) =~= later.taken.take(
        mid.taken.len() as int,
    ).take(st.taken.len() as int));
    assert(later.insertions.take(st.insertions.len() as int) =~= later.insertions.take(
        mid.insertions.len() as int,
    ).take(st.insertions.len() as int));
    assert forall|i: int| st.insertions.len() <= i < later.insertions.len() implies declares(
        #[trigger] later.insertions[i],
        later.taken[i - st.insertions.len() + st.taken.len()],
    ) by {
        if i < mid.insertions.len() {
            assert(later.insertions.take(mid.insertions.len() as int)[i] == later.insertions[i]);
            assert(declares(
                mid.insertions[i],
                mid.taken[i - st.insertions.len() + st.taken.len()],
            ));
            assert(later.taken.take(mid.taken.len() as int)[i - st.insertions.len()
                + st.taken.len()] == later.taken[i - st.insertions.len() + st.taken.len()]);
        }
    }
}

/// What stands in the place of a tree: the tree, where it is skipped or nothing
/// can be taken out of it; else a use of a template that is among these
/// statements, with what was taken out of the tree.
pub open spec fn stands_for(jsx: Jsx, after: JsxV, scene: SceneV, templates: Seq<StmtV>) -> bool {
    let (left, out) = jsx_out(jsx, scene.top, nothing_out());
    if is_skipped(scene.source, scene.comments, jsx_start(jsx)) || out.attrs.len() == 0 {
        after == jsx_value(jsx)
    } else {
        exists|name: Seq<char>|
            ExprV::Jsx(Box::new(after)) == #[trigger] use_v(name, out.attrs)
                && templates.contains(const_v(name, template_body_v(left, out.vars)))
    }
}

/// In the place of each tree stands what stands for it.
pub open spec fn replaced(
    trees: Seq<Jsx>,
    left: Seq<JsxV>,
    scene: SceneV,
    templates: Seq<StmtV>,
) -> bool {
    &&& trees.len() == left.len()
    &&& forall|i: int|
        0 <= i < trees.len() ==> stands_for(trees[i], #[trigger] left[i], scene, templates)
}

/// The trees were replaced, and on the way only names and templates added.
#[verifier::opaque]
pub open spec fn went(
    trees: Seq<Jsx>,
    left: Seq<JsxV>,
    scene: SceneV,
    st: WalkV,
    later: WalkV,
) -> bool {
    grows(st, later) && replaced(trees, left, scene, later.insertions)
}

proof fn went_nowhere(scene: SceneV, st: WalkV)
    ensures
        went(Seq::empty(), Seq::empty(), scene, st, st),
{
    reveal(went);
    grows_itself(st);
}

proof fn stands_later(jsx: Jsx, after: JsxV, scene: SceneV, st: WalkV, later: WalkV)
    requires
        stands_for(jsx, after, scene, st.insertions),
        grows(st, later),
    ensures
        stands_for(jsx, after, scene, later.insertions),
{
    let (left, out) = jsx_out(jsx, scene.top, nothing_out());
    if !is_skipped(scene.source, scene.comments, jsx_start(jsx)) && out.attrs.len() != 0 {
        let name = choose|name: Seq<char>|
            ExprV::Jsx(Box::new(after)) == #[trigger] use_v(name, out.attrs)
                && st.insertions.contains(const_v(name, template_body_v(left, out.vars)));
        let template = const_v(name, template_body_v(left, out.vars));
        let k = st.insertions.index_of(template);
        assert(later.insertions.take(st.insertions.len() as int)[k] == later.insertions[k]);
        assert(later.insertions.contains(template));
    }
}

broadcast proof fn went_on(
    trees: Seq<Jsx>,
    left: Seq<JsxV>,
    more: Seq<Jsx>,
    also: Seq<JsxV>,
    scene: SceneV,
    st: WalkV,
    mid: WalkV,
    later: WalkV,
)
    requires
        #[trigger] went(trees, left, scene, st, mid),
        #[trigger] went(more, also, scene, mid, later),
    ensures
        #[trigger] went(trees + more, left + also, scene, st, later),
{
    reveal(went);
    grows_by(st, mid, later);
    assert forall|i: int| 0 <= i < (trees + more).len() implies stands_for(
        (trees + more)[i],
        #[trigger] (left + also)[i],
        scene,
        later.insertions,
    ) by {
        if i < trees.len() {
            assert(stands_for(trees[i], left[i], scene, mid.insertions));
            stands_later(trees[i], left[i], scene, mid, later);
        } else {
            assert(stands_for(
                more[i - trees.len()],
                also[i - left.len()],
                scene,
                later.insertions,
            ));
        }
    }
}

proof fn tree_replaced(expr: &Expr, desc: Seq<char>, scene: SceneV, st: WalkV)
    requires
        *expr is Jsx,
    ensures
        went(
            expr_trees(*expr),
            expr_left(expr_p(*expr, desc, scene, st).0),
            scene,
            st,
            expr_p(*expr, desc, scene, st).1,
        ),
{
    reveal(went);
    grows_itself(st);
    let (done, later) = expr_p(*expr, desc, scene, st);
    let jsx = expr_trees(*expr)[0];
    let (left, out) = jsx_out(jsx, scene.top, nothing_out());
    if !is_skipped(scene.source, scene.comments, jsx_start(jsx)) && out.attrs.len() != 0 {
        free_name_is_free(template_base(desc), st.taken);
        assert(later.taken.take(st.taken.len() as int) =~= st.taken);
        assert(later.insertions.take(st.insertions.len() as int) =~= st.insertions);
        let name = later.taken.last();
        assert(declares(later.insertions.last(), name));
        assert(later.insertions.contains(later.insertions.last()));
        assert(done == use_v(name, out.attrs));
        assert forall|i: int, j: int|
            st.taken.no_duplicates() && 0 <= i < later.taken.len() && 0 <= j < later.taken.len()
                && i != j implies later.taken[i] != later.taken[j] by {
            if i == st.taken.len() {
                assert(st.taken[j] == later.taken[j]);
            } else if j == st.taken.len() {
                assert(st.taken[i] == later.taken[i]);
            } else {
                assert(st.taken[i] == later.taken[i] && st.taken[j] == later.taken[j]);
            }
        }
    }
}

/// What has changed behind an expression.
spec fn behind(expr: &Expr, desc: Seq<char>, scene: SceneV, st: WalkV) -> WalkV {
    expr_p(*expr, desc, scene, st).1
}

/// The trees of an expression, before and after.
spec fn pair(expr: &Expr, desc: Seq<char>, scene: SceneV, st: WalkV) -> (Seq<Jsx>, Seq<JsxV>) {
    (expr_trees(*expr), expr_left(expr_p(*expr, desc, scene, st).0))
}

/// The trees of a statement, before and after.
spec fn pair_stmt(stmt: &Stmt, desc: Seq<char>, scene: SceneV, st: WalkV) -> (
    Seq<Jsx>,
    Seq<JsxV>,
) {
    (stmt_trees(*stmt), stmt_left(stmt_p(*stmt, desc, scene, st).0))
}

/// What has changed behind a statement.
spec fn behind_stmt(stmt: &Stmt, desc: Seq<char>, scene: SceneV, st: WalkV) -> WalkV {
    stmt_p(*stmt, desc, scene, st).1
}

/// Every outermost tree of an expression is replaced.
pub proof fn expression_replaced(expr: &Expr, desc: Seq<char>, scene: SceneV, st: WalkV)
    ensures
        went(
            expr_trees(*expr),
            expr_left(expr_p(*expr, desc, scene, st).0),
            scene,
            st,
            expr_p(*expr, desc, scene, st).1,
        ),
    decreases *expr, 0nat,
{
    broadcast use went_on;

    went_nowhere(scene, st);
    match expr {
        Expr::Jsx(_) => tree_replaced(expr, desc, scene, st),
        Expr::Member { object, property } => expression_replaced(object, desc, scene, st),
        Expr::Typeof(inner) => expression_replaced(inner, desc, scene, st),
        Expr::StrictEquality { left, right } => {
            expression_replaced(left, desc, scene, st);
            let mid = behind(left, desc, scene, st);
            expression_replaced(right, desc, scene, mid);
        },
        Expr::Call { form, callee, args } => {
            expression_replaced(callee, desc, scene, st);
            let mid = behind(callee, desc, scene, st);
            arguments_replaced(args@, args@.len(), desc, scene, mid);
        },
        Expr::Arrow { params, expression, body } => {
            params_replaced(params, desc, scene, st);
            let mid = params_p(*params, desc, scene, st).1;
            statements_replaced(body@, body@.len(), desc, scene, mid);
        },
        Expr::Function(function) => function_replaced(function, desc, scene, st),
        Expr::Conditional { test, consequent, alternate } => {
            expression_replaced(test, desc, scene, st);
            let first = behind(test, desc, scene, st);
            expression_replaced(consequent, desc, scene, first);
            let second = behind(consequent, desc, scene, first);
            let (trees, left) = pair(test, desc, scene, st);
            let (more, also) = pair(consequent, desc, scene, first);
            assert(went(trees + more, left + also, scene, st, second));
            expression_replaced(alternate, desc, scene, second);
        },
        Expr::Logical { form, left, right } => {
            expression_replaced(left, desc, scene, st);
            let mid = behind(left, desc, scene, st);
            expression_replaced(right, desc, scene, mid);
        },
        Expr::Assign { form, target, value } => {
            expression_replaced(target, desc, scene, st);
            let mid = behind(target, desc, scene, st);
            expression_replaced(value, desc, scene, mid);
        },
        Expr::Sequence(items) => items_replaced(items@, items@.len(), desc, scene, st),
        Expr::Paren(inner) => expression_replaced(inner, desc, scene, st),
        Expr::Typed { form, expr } => expression_replaced(expr, desc, scene, st),
        Expr::Node { id, parts } => parts_replaced(parts@, parts@.len(), desc, scene, st),
        _ => {},
    }
}

proof fn items_replaced(items: Seq<Rc<Expr>>, n: nat, desc: Seq<char>, scene: SceneV, st: WalkV)
    ensures
        went(
            exprs_trees(items, n),
            exprs_left(exprs_p(items, n, desc, scene, st).0),
            scene,
            st,
            exprs_p(items, n, desc, scene, st).1,
        ),
    decreases items, n,
{
    broadcast use went_on;

    went_nowhere(scene, st);
    if 0 < n <= items.len() {
        items_replaced(items, (n - 1) as nat, desc, scene, st);
        let (before, mid) = exprs_p(items, (n - 1) as nat, desc, scene, st);
        expression_replaced(&items[n - 1], desc, scene, mid);
        let all = exprs_p(items, n, desc, scene, st).0;
        assert(all.subrange(0, all.len() - 1) =~= before);
    }
}

proof fn arguments_replaced(items: Seq<Arg>, n: nat, desc: Seq<char>, scene: SceneV, st: WalkV)
    ensures
        went(
            args_trees(items, n),
            args_left(args_p(items, n, desc, scene, st).0),
            scene,
            st,
            args_p(items, n, desc, scene, st).1,
        ),
    decreases items, n,
{
    broadcast use went_on;

    went_nowhere(scene, st);
    if 0 < n <= items.len() {
        arguments_replaced(items, (n - 1) as nat, desc, scene, st);
        let (before, mid) = args_p(items, (n - 1) as nat, desc, scene, st);
        argument_replaced(&items[n - 1], desc, scene, mid);
        let all = args_p(items, n, desc, scene, st).0;
        assert(all.subrange(0, all.len() - 1) =~= before);
    }
}

proof fn argument_replaced(arg: &Arg, desc: Seq<char>, scene: SceneV, st: WalkV)
    ensures
        went(
            arg_trees(*arg),
            arg_left(arg_p(*arg, desc, scene, st).0),
            scene,
            st,
            arg_p(*arg, desc, scene, st).1,
        ),
    decreases *arg, 0nat,
{
    went_nowhere(scene, st);
    match arg {
        Arg::Expr(expr) => expression_replaced(expr, desc, scene, st),
        Arg::Spread(expr) => expression_replaced(expr, desc, scene, st),
    }
}

proof fn parts_replaced(items: Seq<Part>, n: nat, desc: Seq<char>, scene: SceneV, st: WalkV)
    ensures
        went(
            parts_trees(items, n),
            parts_left(parts_p(items, n, desc, scene, st).0),
            scene,
            st,
            parts_p(items, n, desc, scene, st).1,
        ),
    decreases items, n,
{
    broadcast use went_on;

    went_nowhere(scene, st);
    if 0 < n <= items.len() {
        parts_replaced(items, (n - 1) as nat, desc, scene, st);
        let (before, mid) = parts_p(items, (n - 1) as nat, desc, scene, st);
        part_replaced(&items[n - 1], desc, scene, mid);
        let all = parts_p(items, n, desc, scene, st).0;
        assert(all.subrange(0, all.len() - 1) =~= before);
    }
}

proof fn part_replaced(part: &Part, desc: Seq<char>, scene: SceneV, st: WalkV)
    ensures
        went(
            part_trees(*part),
            part_left(part_p(*part, desc, scene, st).0),
            scene,
            st,
            part_p(*part, desc, scene, st).1,
        ),
    decreases *part, 0nat,
{
    went_nowhere(scene, st);
    match part {
        Part::Expr(expr) => expression_replaced(expr, desc, scene, st),
        Part::Stmt(stmt) => statement_replaced(stmt, desc, scene, st),
    }
}

proof fn params_replaced(params: &Params, desc: Seq<char>, scene: SceneV, st: WalkV)
    ensures
        went(
            params_trees(*params),
            params_left(params_p(*params, desc, scene, st).0),
            scene,
            st,
            params_p(*params, desc, scene, st).1,
        ),
    decreases *params, 0nat,
{
    went_nowhere(scene, st);
    match params {
        Params::One(_) => {},
        Params::Given { id, parts } => parts_replaced(parts@, parts@.len(), desc, scene, st),
    }
}

proof fn body_replaced(body: &Option<Vec<Rc<Stmt>>>, desc: Seq<char>, scene: SceneV, st: WalkV)
    ensures
        went(
            body_trees(*body),
            body_left(body_p(*body, desc, scene, st).0),
            scene,
            st,
            body_p(*body, desc, scene, st).1,
        ),
    decreases *body, 0nat,
{
    went_nowhere(scene, st);
    match body {
        None => {},
        Some(body) => statements_replaced(body@, body@.len(), desc, scene, st),
    }
}

proof fn function_replaced(function: &Function, desc: Seq<char>, scene: SceneV, st: WalkV)
    ensures
        went(
            function_trees(*function),
            function_left(function_p(*function, desc, scene, st).0),
            scene,
            st,
            function_p(*function, desc, scene, st).1,
        ),
    decreases *function, 0nat,
{
    broadcast use went_on;

    went_nowhere(scene, st);
    let desc = name_or(function.name, desc);
    let params = function.params@;
    parts_replaced(params, params.len(), desc, scene, st);
    body_replaced(&function.body, desc, scene, parts_p(params, params.len(), desc, scene, st).1);
}

proof fn class_replaced(class: &Class, desc: Seq<char>, scene: SceneV, st: WalkV)
    ensures
        went(
            class_trees(*class),
            class_left(class_p(*class, desc, scene, st).0),
            scene,
            st,
            class_p(*class, desc, scene, st).1,
        ),
    decreases *class, 0nat,
{
    went_nowhere(scene, st);
    parts_replaced(class.parts@, class.parts@.len(), desc, scene, st);
}

proof fn option_replaced(option: &Option<Rc<Expr>>, desc: Seq<char>, scene: SceneV, st: WalkV)
    ensures
        went(
            option_trees(*option),
            option_left(option_p(*option, desc, scene, st).0),
            scene,
            st,
            option_p(*option, desc, scene, st).1,
        ),
    decreases *option, 0nat,
{
    went_nowhere(scene, st);
    match option {
        None => {},
        Some(expr) => expression_replaced(expr, desc, scene, st),
    }
}

proof fn other_replaced(other: &Option<Rc<Stmt>>, desc: Seq<char>, scene: SceneV, st: WalkV)
    ensures
        went(
            other_trees(*other),
            other_left(other_p(*other, desc, scene, st).0),
            scene,
            st,
            other_p(*other, desc, scene, st).1,
        ),
    decreases *other, 0nat,
{
    went_nowhere(scene, st);
    match other {
        None => {},
        Some(stmt) => statement_replaced(stmt, desc, scene, st),
    }
}

proof fn pattern_replaced(pattern: &Pattern, desc: Seq<char>, scene: SceneV, st: WalkV)
    ensures
        went(
            pattern_trees(*pattern),
            pattern_left(pattern_p(*pattern, desc, scene, st).0),
            scene,
            st,
            pattern_p(*pattern, desc, scene, st).1,
        ),
    decreases *pattern, 0nat,
{
    went_nowhere(scene, st);
    match pattern {
        Pattern::Ident(_) => {},
        Pattern::Opaque { id, names, parts } => parts_replaced(
            parts@,
            parts@.len(),
            desc,
            scene,
            st,
        ),
    }
}

proof fn declarator_replaced(declarator: &Declarator, desc: Seq<char>, scene: SceneV, st: WalkV)
    ensures
        went(
            declarator_trees(*declarator),
            declarator_left(declarator_p(*declarator, desc, scene, st).0),
            scene,
            st,
            declarator_p(*declarator, desc, scene, st).1,
        ),
    decreases *declarator, 0nat,
{
    broadcast use went_on;

    went_nowhere(scene, st);
    pattern_replaced(&declarator.pattern, desc, scene, st);
    let mid = pattern_p(declarator.pattern, desc, scene, st).1;
    option_replaced(&declarator.init, desc, scene, mid);
}

proof fn declarators_replaced(items: Seq<Declarator>, n: nat, desc: Seq<char>, scene: SceneV, st: WalkV)
    ensures
        went(
            declarators_trees(items, n),
            declarators_left(declarators_p(items, n, desc, scene, st).0),
            scene,
            st,
            declarators_p(items, n, desc, scene, st).1,
        ),
    decreases items, n,
{
    broadcast use went_on;

    went_nowhere(scene, st);
    if 0 < n <= items.len() {
        declarators_replaced(items, (n - 1) as nat, desc, scene, st);
        let (before, mid) = declarators_p(items, (n - 1) as nat, desc, scene, st);
        declarator_replaced(&items[n - 1], desc, scene, mid);
        let all = declarators_p(items, n, desc, scene, st).0;
        assert(all.subrange(0, all.len() - 1) =~= before);
    }
}

proof fn variables_replaced(variables: &Variables, desc: Seq<char>, scene: SceneV, st: WalkV)
    ensures
        went(
            variables_trees(*variables),
            variables_left(variables_p(*variables, desc, scene, st).0),
            scene,
            st,
            variables_p(*variables, desc, scene, st).1,
        ),
    decreases *variables, 0nat,
{
    went_nowhere(scene, st);
    let items = variables.declarators@;
    declarators_replaced(items, items.len(), desc, scene, st);
}

proof fn declaration_replaced(declaration: &Declaration, desc: Seq<char>, scene: SceneV, st: WalkV)
    ensures
        went(
            declaration_trees(*declaration),
            declaration_left(declaration_p(*declaration, desc, scene, st).0),
            scene,
            st,
            declaration_p(*declaration, desc, scene, st).1,
        ),
    decreases *declaration, 0nat,
{
    went_nowhere(scene, st);
    match declaration {
        Declaration::Variables(variables) => variables_replaced(variables, desc, scene, st),
        Declaration::Function(function) => function_replaced(function, desc, scene, st),
        Declaration::Class(class) => class_replaced(class, desc, scene, st),
        Declaration::Node { id, parts } => parts_replaced(parts@, parts@.len(), desc, scene, st),
    }
}

proof fn exported_replaced(exported: &Exported, desc: Seq<char>, scene: SceneV, st: WalkV)
    ensures
        went(
            exported_trees(*exported),
            exported_left(exported_p(*exported, desc, scene, st).0),
            scene,
            st,
            exported_p(*exported, desc, scene, st).1,
        ),
    decreases *exported, 0nat,
{
    went_nowhere(scene, st);
    match exported {
        Exported::Function(function) => function_replaced(function, desc, scene, st),
        Exported::Class(class) => class_replaced(class, desc, scene, st),
        Exported::Interface(_) => {},
        Exported::Expr(expr) => expression_replaced(expr, desc, scene, st),
    }
}

/// Every outermost tree of a statement is replaced.
pub proof fn statement_replaced(stmt: &Stmt, desc: Seq<char>, scene: SceneV, st: WalkV)
    ensures
        went(
            stmt_trees(*stmt),
            stmt_left(stmt_p(*stmt, desc, scene, st).0),
            scene,
            st,
            stmt_p(*stmt, desc, scene, st).1,
        ),
    decreases *stmt, 0nat,
{
    broadcast use went_on;

    went_nowhere(scene, st);
    match stmt {
        Stmt::Variables(variables) => variables_replaced(variables, desc, scene, st),
        Stmt::Function(function) => function_replaced(function, desc, scene, st),
        Stmt::Class(class) => class_replaced(class, desc, scene, st),
        Stmt::ExportNamed { id, declaration: Some(declaration) } => declaration_replaced(
            declaration,
            desc,
            scene,
            st,
        ),
        Stmt::ExportDefault { id, exported } => exported_replaced(exported, desc, scene, st),
        Stmt::Expr(expr) => expression_replaced(expr, desc, scene, st),
        Stmt::Return(expr) => option_replaced(expr, desc, scene, st),
        Stmt::If { test, consequent, alternate } => {
            expression_replaced(test, desc, scene, st);
            let first = behind(test, desc, scene, st);
            statement_replaced(consequent, desc, scene, first);
            let second = behind_stmt(consequent, desc, scene, first);
            let (trees, left) = pair(test, desc, scene, st);
            let (more, also) = pair_stmt(consequent, desc, scene, first);
            assert(went(trees + more, left + also, scene, st, second));
            other_replaced(alternate, desc, scene, second);
        },
        Stmt::Block(body) => statements_replaced(body@, body@.len(), desc, scene, st),
        Stmt::Node { id, parts } => parts_replaced(parts@, parts@.len(), desc, scene, st),
        _ => {},
    }
}

proof fn statements_replaced(items: Seq<Rc<Stmt>>, n: nat, desc: Seq<char>, scene: SceneV, st: WalkV)
    ensures
        went(
            stmts_trees(items, n),
            stmts_left(stmts_p(items, n, desc, scene, st).0),
            scene,
            st,
            stmts_p(items, n, desc, scene, st).1,
        ),
    decreases items, n,
{
    broadcast use went_on;

    went_nowhere(scene, st);
    if 0 < n <= items.len() {
        statements_replaced(items, (n - 1) as nat, desc, scene, st);
        let (before, mid) = stmts_p(items, (n - 1) as nat, desc, scene, st);
        statement_replaced(&items[n - 1], desc, scene, mid);
        let all = stmts_p(items, n, desc, scene, st).0;
        assert(all.subrange(0, all.len() - 1) =~= before);
    }
}

proof fn root_replaced(stmt: &Stmt, scene: SceneV, taken: Seq<Seq<char>>)
    ensures
        ({
            let (here, after) = root_p(*stmt, scene, taken);
            &&& here.len() > 0
            &&& went(
                stmt_trees(*stmt),
                stmt_left(here.last()),
                scene,
                WalkV { taken, insertions: Seq::empty() },
                WalkV { taken: after, insertions: here.drop_last() },
            )
        }),
{
    let st = WalkV { taken, insertions: Seq::empty() };
    went_nowhere(scene, st);
    let (here, after) = root_p(*stmt, scene, taken);
    if may_contain_jsx(*stmt) {
        let desc = descriptive_name(*stmt);
        statement_replaced(stmt, desc, scene, st);
        let later = behind_stmt(stmt, desc, scene, st);
        assert(here.drop_last() =~= later.insertions);
    } else {
        assert(here.drop_last() =~= Seq::<StmtV>::empty());
    }
}

/// The names were added to; without repetition, if there was none.
pub open spec fn keeps_names(taken: Seq<Seq<char>>, after: Seq<Seq<char>>) -> bool {
    &&& taken.len() <= after.len()
    &&& after.take(taken.len() as int) == taken
    &&& taken.no_duplicates() ==> after.no_duplicates()
}

/// A statement of the source became the one at `at`, with its templates right
/// in front of it, from `from` on.
pub open spec fn became(stmt: Stmt, done: Seq<StmtV>, from: int, at: int, scene: SceneV) -> bool {
    &&& 0 <= from <= at < done.len()
    &&& replaced(stmt_trees(stmt), stmt_left(done[at]), scene, done.subrange(from, at))
}

/// A statement of the source became one of these, with its templates right in
/// front of it.
pub open spec fn placed(stmt: &Stmt, done: Seq<StmtV>, scene: SceneV) -> bool {
    exists|from: int, at: int| became(*stmt, done, from, at, scene)
}

proof fn became_further(
    stmt: Stmt,
    done: Seq<StmtV>,
    here: Seq<StmtV>,
    from: int,
    at: int,
    scene: SceneV,
)
    requires
        became(stmt, done, from, at, scene),
    ensures
        became(stmt, here + done, from + here.len(), at + here.len(), scene),
{
    assert((here + done).subrange(from + here.len(), at + here.len()) =~= done.subrange(from, at));
}

proof fn tail_replaced(body: Seq<Rc<Stmt>>, from: nat, scene: SceneV, taken: Seq<Seq<char>>)
    ensures
        ({
            let (done, after) = tail_p(body, from, scene, taken);
            &&& keeps_names(taken, after)
            &&& from <= body.len() ==> done.len() == (body.len() - from) + after.len()
                - taken.len()
            &&& forall|k: int|
                from <= k < body.len() ==> #[trigger] placed(&body[k], done, scene)
        }),
    decreases body.len() - from,
{
    let (done, after) = tail_p(body, from, scene, taken);
    if from >= body.len() {
        assert(taken.take(taken.len() as int) =~= taken);
    } else {
        tail_replaced(body, from + 1, scene, taken);
        let (rest, mid) = tail_p(body, from + 1, scene, taken);
        root_replaced(&body[from as int], scene, mid);
        let here = root_of(&body[from as int], scene, mid);
        reveal(went);
        assert(after.take(taken.len() as int) =~= after.take(mid.len() as int).take(
            taken.len() as int,
        ));
        assert forall|k: int| from <= k < body.len() implies #[trigger] placed(
            &body[k],
            done,
            scene,
        ) by {
            if k == from {
                let at = here.len() - 1;
                assert(done.subrange(0, at) =~= here.drop_last());
                assert(became(*body[k], done, 0, at, scene));
            } else {
                assert(placed(&body[k], rest, scene));
                let (i, j) = choose|i: int, j: int| became(*body[k], rest, i, j, scene);
                became_further(*body[k], rest, here, i, j, scene);
                assert(became(
                    *body[k],
                    done,
                    i + here.len() as int,
                    j + here.len() as int,
                    scene,
                ));
            }
        }
    }
}

spec fn root_of(stmt: &Stmt, scene: SceneV, taken: Seq<Seq<char>>) -> Seq<StmtV> {
    root_p(*stmt, scene, taken).0
}

/// The transform keeps every statement of a program, adds one statement for
/// each name that it takes, and takes only names that were free.
pub proof fn program_grows(
    body: Seq<Rc<Stmt>>,
    source: Seq<char>,
    comments: Seq<Comment>,
    taken: Seq<Seq<char>>,
)
    ensures
        ({
            let (done, after) = program_p(body, source, comments, taken);
            &&& keeps_names(taken, after)
            &&& done.len() == body.len() + after.len() - taken.len()
        }),
{
    let scene = SceneV { top: top_level_names(body, body.len()), source, comments };
    tail_replaced(body, 0, scene, taken);
}

/// Every JSX tree of a program that lies in no other tree, is not skipped and
/// has something that can be taken out of it is replaced by a use of its
/// template, which is declared in front of the statement that holds the tree.
/// The other trees stay as they are.
pub proof fn every_tree_is_replaced(
    body: Seq<Rc<Stmt>>,
    source: Seq<char>,
    comments: Seq<Comment>,
    taken: Seq<Seq<char>>,
    k: int,
)
    requires
        0 <= k < body.len(),
    ensures
        ({
            let scene = SceneV { top: top_level_names(body, body.len()), source, comments };
            let done = program_p(body, source, comments, taken).0;
            placed(&body[k], done, scene)
        }),
{
    let scene = SceneV { top: top_level_names(body, body.len()), source, comments };
    tail_replaced(body, 0, scene, taken);
}

// ---------------------------------------------------------------------------
// What a template reads
// ---------------------------------------------------------------------------

/// `read` is `_props.vN`, and the attribute `vN` holds `expr`.
pub open spec fn reads(read: ExprV, attrs: Seq<AttrV>, expr: ExprV) -> bool {
    exists|k: int|
        0 <= k < attrs.len() && #[trigger] attrs[k] == kept_v(key_v(k as nat), expr) && read
            == props_member_v(key_v(k as nat))
}

/// `read` is `_props.vN` as a name, and the attribute `vN` holds `expr`.
pub open spec fn reads_name(read: NameV, attrs: Seq<AttrV>, expr: ExprV) -> bool {
    exists|k: int|
        0 <= k < attrs.len() && #[trigger] attrs[k] == kept_v(key_v(k as nat), expr) && read
            == props_name_v(key_v(k as nat))
}

/// A value in a template stands for a value of the source.
pub open spec fn value_stands(left: AttrValueV, value: AttrValue, attrs: Seq<AttrV>) -> bool {
    match (value, left) {
        (AttrValue::Container(Some(expr)), AttrValueV::Container(Some(read))) => reads(
            read,
            attrs,
            expr_value(*expr),
        ),
        (AttrValue::Container(Some(_)), _) => false,
        (AttrValue::Jsx(jsx), AttrValueV::Container(Some(read))) => reads(
            read,
            attrs,
            ExprV::Jsx(Box::new(jsx_value(*jsx))),
        ),
        (AttrValue::Jsx(_), _) => false,
        _ => left == attr_value_value(value),
    }
}

/// An attribute in a template stands for an attribute of the source.  A `ref`
/// reads what its target became; a directive keeps a tree that is its value.
pub open spec fn attr_stands(left: AttrV, attr: Attr, attrs: Seq<AttrV>) -> bool {
    match (attr, left) {
        (Attr::Spread(expr), AttrV::Spread(read)) => reads(read, attrs, expr_value(*expr)),
        (Attr::Named { name, value }, AttrV::Named { name: kept, value: left }) => {
            &&& kept == name@
            &&& match (name, value) {
                (AttrName::Ident(text), AttrValue::Container(Some(expr))) => if text@ == "ref"@ {
                    match left {
                        AttrValueV::Container(Some(read)) => reads(
                            read,
                            attrs,
                            ref_target_v(*expr),
                        ),
                        _ => false,
                    }
                } else {
                    value_stands(left, value, attrs)
                },
                (AttrName::Ident(text), AttrValue::Jsx(_)) => if text@ == "ref"@ {
                    left == attr_value_value(value)
                } else {
                    value_stands(left, value, attrs)
                },
                (AttrName::Namespaced { namespace, .. }, AttrValue::Jsx(_)) => if namespace@
                    == "use"@ {
                    left == attr_value_value(value)
                } else {
                    value_stands(left, value, attrs)
                },
                _ => value_stands(left, value, attrs),
            }
        },
        _ => false,
    }
}

/// The name of an element in a template stands for a name of the source.
pub open spec fn name_stands(
    left: NameV,
    name: Name,
    top: Seq<Seq<char>>,
    attrs: Seq<AttrV>,
) -> bool {
    match taken_name(name, top) {
        None => left == name@,
        Some(expr) => reads_name(left, attrs, expr),
    }
}

/// A tree in a template stands for a tree of the source: it has the same shape,
/// and where the source has an expression it reads the attribute that holds
/// that expression.
pub open spec fn jsx_stands(
    left: JsxV,
    jsx: Jsx,
    top: Seq<Seq<char>>,
    attrs: Seq<AttrV>,
) -> bool
    decreases jsx,
{
    match (jsx, left) {
        (Jsx::Element { start, name, closing, attrs: own, children }, JsxV::Element {
            start: at,
            name: new_name,
            closing: new_closing,
            attrs: new_own,
            children: new_children,
        }) => {
            &&& at == start
            &&& name_stands(new_name, name, top, attrs)
            &&& (new_closing is Some <==> closing is Some)
            &&& new_own.len() == own@.len()
            &&& forall|i: int|
                0 <= i < own@.len() ==> attr_stands(new_own[i], #[trigger] own@[i], attrs)
            &&& new_children.len() == children@.len()
            &&& forall|i: int|
                0 <= i < children@.len() ==> child_stands(
                    new_children[i],
                    #[trigger] children@[i],
                    top,
                    attrs,
                )
        },
        (Jsx::Fragment { start, children }, JsxV::Fragment { start: at, children: new_children }) => {
            &&& at == start
            &&& new_children.len() == children@.len()
            &&& forall|i: int|
                0 <= i < children@.len() ==> child_stands(
                    new_children[i],
                    #[trigger] children@[i],
                    top,
                    attrs,
                )
        },
        _ => false,
    }
}

/// A child in a template stands for a child of the source.
pub open spec fn child_stands(
    left: ChildV,
    child: Child,
    top: Seq<Seq<char>>,
    attrs: Seq<AttrV>,
) -> bool
    decreases child,
{
    match (child, left) {
        (Child::Text(id), ChildV::Text(kept)) => kept == id,
        (Child::Jsx(jsx), ChildV::Jsx(left)) => jsx_stands(left, *jsx, top, attrs),
        (Child::Container(None), ChildV::Container(None)) => true,
        (Child::Container(Some(expr)), ChildV::Container(Some(read))) => reads(
            read,
            attrs,
            expr_value(*expr),
        ),
        (Child::Spread(expr), ChildV::Spread(read)) => reads(read, attrs, expr_value(*expr)),
        _ => false,
    }
}

/// `later` begins with `attrs`.
spec fn begins(attrs: Seq<AttrV>, later: Seq<AttrV>) -> bool {
    &&& attrs.len() <= later.len()
    &&& forall|i: int| 0 <= i < attrs.len() ==> later[i] == #[trigger] attrs[i]
}

proof fn extends_begins(st: ExtractionV, later: ExtractionV)
    requires
        extends(st, later),
    ensures
        begins(st.attrs, later.attrs),
{
    assert forall|i: int| 0 <= i < st.attrs.len() implies later.attrs[i]
        == #[trigger] st.attrs[i] by {
        assert(later.attrs.take(st.attrs.len() as int)[i] == later.attrs[i]);
    }
}

proof fn reads_later(read: ExprV, attrs: Seq<AttrV>, later: Seq<AttrV>, expr: ExprV)
    requires
        begins(attrs, later),
        reads(read, attrs, expr),
    ensures
        reads(read, later, expr),
{
    let k = choose|k: int|
        0 <= k < attrs.len() && #[trigger] attrs[k] == kept_v(key_v(k as nat), expr) && read
            == props_member_v(key_v(k as nat));
    assert(later[k] == attrs[k]);
}

proof fn all_read_later(attrs: Seq<AttrV>, later: Seq<AttrV>)
    requires
        begins(attrs, later),
    ensures
        forall|read: ExprV, expr: ExprV|
            reads(read, attrs, expr) ==> #[trigger] reads(read, later, expr),
{
    assert forall|read: ExprV, expr: ExprV| reads(read, attrs, expr) implies #[trigger] reads(
        read,
        later,
        expr,
    ) by {
        reads_later(read, attrs, later, expr);
    }
}

proof fn attr_stands_later(left: AttrV, attr: Attr, attrs: Seq<AttrV>, later: Seq<AttrV>)
    requires
        begins(attrs, later),
        attr_stands(left, attr, attrs),
    ensures
        attr_stands(left, attr, later),
{
    all_read_later(attrs, later);
}

proof fn jsx_stands_later(
    left: JsxV,
    jsx: &Jsx,
    top: Seq<Seq<char>>,
    attrs: Seq<AttrV>,
    later: Seq<AttrV>,
)
    requires
        begins(attrs, later),
        jsx_stands(left, *jsx, top, attrs),
    ensures
        jsx_stands(left, *jsx, top, later),
    decreases *jsx, 1nat,
{
    match jsx {
        Jsx::Element { start, name, closing, attrs: own, children } => {
            assert forall|i: int| 0 <= i < own@.len() implies attr_stands(
                left->attrs[i],
                #[trigger] own@[i],
                later,
            ) by {
                attr_stands_later(left->attrs[i], own@[i], attrs, later);
            }
            if let Some(expr) = taken_name(*name, top) {
                let read = left->name;
                let k = choose|k: int|
                    0 <= k < attrs.len() && #[trigger] attrs[k] == kept_v(key_v(k as nat), expr)
                        && read == props_name_v(key_v(k as nat));
                assert(later[k] == attrs[k]);
                assert(reads_name(read, later, expr));
            }
            assert forall|i: int| 0 <= i < children@.len() implies child_stands(
                left->Element_children[i],
                #[trigger] children@[i],
                top,
                later,
            ) by {
                child_stands_later(left->Element_children[i], &children@[i], top, attrs, later);
            }
        },
        Jsx::Fragment { start, children } => {
            assert forall|i: int| 0 <= i < children@.len() implies child_stands(
                left->Fragment_children[i],
                #[trigger] children@[i],
                top,
                later,
            ) by {
                child_stands_later(left->Fragment_children[i], &children@[i], top, attrs, later);
            }
        },
    }
}

proof fn child_stands_later(
    left: ChildV,
    child: &Child,
    top: Seq<Seq<char>>,
    attrs: Seq<AttrV>,
    later: Seq<AttrV>,
)
    requires
        begins(attrs, later),
        child_stands(left, *child, top, attrs),
    ensures
        child_stands(left, *child, top, later),
    decreases *child, 0nat,
{
    all_read_later(attrs, later);
    match child {
        Child::Jsx(jsx) => jsx_stands_later(left->Jsx_0, jsx, top, attrs, later),
        _ => {},
    }
}

proof fn next_reads(st: ExtractionV, expr: ExprV)
    ensures
        reads(st.next_read(), st.with_expr(expr).attrs, expr),
{
    let later = st.with_expr(expr).attrs;
    let k = st.attrs.len() as int;
    assert(later[k] == kept_v(key_v(k as nat), expr));
}

proof fn attr_out_stands(attr: Attr, st: ExtractionV)
    ensures
        attr_stands(attr_out(attr, st).0, attr, attr_out(attr, st).1.attrs),
{
    assert forall|expr: ExprV| reads(
        st.next_read(),
        #[trigger] st.with_expr(expr).attrs,
        expr,
    ) by {
        next_reads(st, expr);
    }
    if let Attr::Named { name: AttrName::Namespaced { namespace, name }, value } = attr {
        if namespace@ == "use"@ {
            let mid = match value {
                AttrValue::Container(_) => value_out(value, st).1,
                _ => st,
            };
            let later = attr_out(attr, st).1;
            assert(later.attrs == mid.with_expr(ExprV::Ident(name@)).attrs);
            assert(begins(mid.attrs, later.attrs));
            all_read_later(mid.attrs, later.attrs);
        }
    }
}

proof fn attrs_out_stand(own: Seq<Attr>, n: nat, st: ExtractionV)
    requires
        n <= own.len(),
    ensures
        ({
            let (left, later) = attrs_out(own, n, st);
            &&& left.len() == n
            &&& forall|i: int|
                0 <= i < n ==> attr_stands(left[i], #[trigger] own[i], later.attrs)
        }),
    decreases n,
{
    if n > 0 {
        attrs_out_stand(own, (n - 1) as nat, st);
        let (before, mid) = attrs_out(own, (n - 1) as nat, st);
        let (left, later) = attrs_out(own, n, st);
        attr_out_stands(own[n - 1], mid);
        attr_extends(own[n - 1], mid);
        extends_begins(mid, later);
        assert forall|i: int| 0 <= i < n implies attr_stands(
            left[i],
            #[trigger] own[i],
            later.attrs,
        ) by {
            if i < n - 1 {
                attr_stands_later(before[i], own[i], mid.attrs, later.attrs);
            }
        }
    }
}

/// What is left of a tree stands for the tree: the template reads back every
/// expression and every component from the attribute that holds it.
pub proof fn template_stands(jsx: &Jsx, top: Seq<Seq<char>>, st: ExtractionV)
    ensures
        jsx_stands(jsx_out(*jsx, top, st).0, *jsx, top, jsx_out(*jsx, top, st).1.attrs),
    decreases *jsx, 0nat,
{
    let (left, later) = jsx_out(*jsx, top, st);
    match jsx {
        Jsx::Element { start, name, closing, attrs: own, children } => {
            let (new_name, new_closing, named) = name_out(*name, *closing, top, st);
            let (new_own, attributed) = attrs_out(own@, own@.len(), named);
            attrs_extend(own@, own@.len(), named);
            extends_begins(named, attributed);
            children_extend(children@, children@.len(), top, attributed);
            extends_begins(attributed, later);
            attrs_out_stand(own@, own@.len(), named);
            assert forall|i: int| 0 <= i < own@.len() implies attr_stands(
                new_own[i],
                #[trigger] own@[i],
                later.attrs,
            ) by {
                attr_stands_later(new_own[i], own@[i], attributed.attrs, later.attrs);
            }
            if let Some(expr) = taken_name(*name, top) {
                let k = st.attrs.len() as int;
                assert(named.attrs[k] == kept_v(key_v(k as nat), expr));
                assert(attributed.attrs[k] == named.attrs[k]);
                assert(later.attrs[k] == attributed.attrs[k]);
                assert(reads_name(new_name, later.attrs, expr));
            }
            children_stand(children@, children@.len(), top, attributed);
        },
        Jsx::Fragment { start, children } => children_stand(
            children@,
            children@.len(),
            top,
            st,
        ),
    }
}

proof fn children_stand(children: Seq<Child>, n: nat, top: Seq<Seq<char>>, st: ExtractionV)
    requires
        n <= children.len(),
    ensures
        ({
            let (left, later) = children_out(children, n, top, st);
            &&& left.len() == n
            &&& forall|i: int|
                0 <= i < n ==> child_stands(left[i], #[trigger] children[i], top, later.attrs)
        }),
    decreases children, n,
{
    if n > 0 {
        children_stand(children, (n - 1) as nat, top, st);
        let (before, mid) = children_out(children, (n - 1) as nat, top, st);
        let (left, later) = children_out(children, n, top, st);
        child_stands_for(&children[n - 1], top, mid);
        child_extends(&children[n - 1], top, mid);
        extends_begins(mid, later);
        assert forall|i: int| 0 <= i < n implies child_stands(
            left[i],
            #[trigger] children[i],
            top,
            later.attrs,
        ) by {
            if i < n - 1 {
                child_stands_later(before[i], &children[i], top, mid.attrs, later.attrs);
            }
        }
    }
}

proof fn child_stands_for(child: &Child, top: Seq<Seq<char>>, st: ExtractionV)
    ensures
        child_stands(child_out(*child, top, st).0, *child, top, child_out(*child, top, st).1.attrs),
    decreases *child, 0nat,
{
    assert forall|expr: ExprV| reads(
        st.next_read(),
        #[trigger] st.with_expr(expr).attrs,
        expr,
    ) by {
        next_reads(st, expr);
    }
    match child {
        Child::Jsx(jsx) => template_stands(jsx, top, st),
        _ => {},
    }
}

} // verus!
