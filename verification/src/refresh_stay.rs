//! What a refresh leaves alone.

use crate::refresh_tree::{
    arg_value, arg_values, class_value, declaration_value, declarator_value, declarator_values,
    exported_value, expr_value, expr_values, function_value, option_value, other_value,
    params_value, part_value, part_values, pattern_value, stmt_value, stmt_values, variables_value,
    Arg, Class, Declaration, Declarator, Exported, Expr, Function, Params, Part, Pattern, Stmt,
    Variables,
};
use crate::refresh_walk::{
    arg_p, args_p, body_p, class_p, declaration_p, declarator_p, declarators_p, exported_p, expr_p,
    exprs_p, function_p, name_or, option_p, other_p, params_p, part_p, parts_p, pattern_p, root_p,
    stmt_p, stmts_p, variables_p, SceneV, WalkV,
};
use std::rc::Rc;
use vstd::prelude::*;

verus! {

/// An expression out of which no template was made is as it was.
pub proof fn an_expression_stays(expr: &Expr, desc: Seq<char>, scene: SceneV, st: WalkV)
    ensures
        ({
            let (out, after) = expr_p(*expr, desc, scene, st);
            &&& st.insertions.len() <= after.insertions.len()
            &&& st.insertions.len() == after.insertions.len() ==> out == expr_value(*expr) && after
                == st
        }),
    decreases *expr, 0nat,
{
    match expr {
        Expr::Jsx(_) => {},
        Expr::Ident(_) => {},
        Expr::Text(_) => {},
        Expr::This => {},
        Expr::Member { object, property } => an_expression_stays(object, desc, scene, st),
        Expr::Typeof(inner) => an_expression_stays(inner, desc, scene, st),
        Expr::StrictEquality { left, right } => {
            an_expression_stays(left, desc, scene, st);
            let mid = behind(left, desc, scene, st);
            an_expression_stays(right, desc, scene, mid);
        },
        Expr::Call { form, callee, args } => {
            an_expression_stays(callee, desc, scene, st);
            let mid = behind(callee, desc, scene, st);
            arguments_stay(args@, args@.len(), desc, scene, mid);
            let out = args_p(args@, args@.len(), desc, scene, mid);
            if out.1.insertions.len() == mid.insertions.len() {
                assert(out.0 =~= arg_values(args@));
            }
        },
        Expr::Arrow { params, expression, body } => {
            params_stay(params, desc, scene, st);
            let mid = params_p(*params, desc, scene, st).1;
            statements_stay(body@, body@.len(), desc, scene, mid);
            let out = stmts_p(body@, body@.len(), desc, scene, mid);
            if out.1.insertions.len() == mid.insertions.len() {
                assert(out.0 =~= stmt_values(body@));
            }
        },
        Expr::Function(function) => a_function_stays(function, desc, scene, st),
        Expr::Conditional { test, consequent, alternate } => {
            an_expression_stays(test, desc, scene, st);
            let first = behind(test, desc, scene, st);
            an_expression_stays(consequent, desc, scene, first);
            let second = behind(consequent, desc, scene, first);
            an_expression_stays(alternate, desc, scene, second);
        },
        Expr::Logical { form, left, right } => {
            an_expression_stays(left, desc, scene, st);
            let mid = behind(left, desc, scene, st);
            an_expression_stays(right, desc, scene, mid);
        },
        Expr::Assign { form, target, value } => {
            an_expression_stays(target, desc, scene, st);
            let mid = behind(target, desc, scene, st);
            an_expression_stays(value, desc, scene, mid);
        },
        Expr::Sequence(items) => {
            expressions_stay(items@, items@.len(), desc, scene, st);
            let out = exprs_p(items@, items@.len(), desc, scene, st);
            if out.1.insertions.len() == st.insertions.len() {
                assert(out.0 =~= expr_values(items@));
            }
        },
        Expr::Paren(inner) => an_expression_stays(inner, desc, scene, st),
        Expr::Typed { form, expr: inner } => an_expression_stays(inner, desc, scene, st),
        Expr::Node { id, parts } => {
            parts_stay(parts@, parts@.len(), desc, scene, st);
            let out = parts_p(parts@, parts@.len(), desc, scene, st);
            if out.1.insertions.len() == st.insertions.len() {
                assert(out.0 =~= part_values(parts@));
            }
        },
    }
}

spec fn behind(expr: &Expr, desc: Seq<char>, scene: SceneV, st: WalkV) -> WalkV {
    expr_p(*expr, desc, scene, st).1
}

spec fn behind_stmt(stmt: &Stmt, desc: Seq<char>, scene: SceneV, st: WalkV) -> WalkV {
    stmt_p(*stmt, desc, scene, st).1
}

proof fn expressions_stay(items: Seq<Rc<Expr>>, n: nat, desc: Seq<char>, scene: SceneV, st: WalkV)
    requires
        n <= items.len(),
    ensures
        ({
            let (out, after) = exprs_p(items, n, desc, scene, st);
            &&& st.insertions.len() <= after.insertions.len()
            &&& out.len() == n
            &&& st.insertions.len() == after.insertions.len() ==> after == st && forall|i: int|
                0 <= i < n ==> #[trigger] out[i] == expr_value(*items[i])
        }),
    decreases items, n,
{
    if n > 0 {
        expressions_stay(items, (n - 1) as nat, desc, scene, st);
        let (before, mid) = exprs_p(items, (n - 1) as nat, desc, scene, st);
        an_expression_stays(&*items[n - 1], desc, scene, mid);
        let (out, after) = exprs_p(items, n, desc, scene, st);
        if st.insertions.len() == after.insertions.len() {
            assert forall|i: int| 0 <= i < n implies #[trigger] out[i] == expr_value(*items[i]) by {
                if i < n - 1 {
                    assert(out[i] == before[i]);
                }
            }
        }
    }
}

proof fn arguments_stay(items: Seq<Arg>, n: nat, desc: Seq<char>, scene: SceneV, st: WalkV)
    requires
        n <= items.len(),
    ensures
        ({
            let (out, after) = args_p(items, n, desc, scene, st);
            &&& st.insertions.len() <= after.insertions.len()
            &&& out.len() == n
            &&& st.insertions.len() == after.insertions.len() ==> after == st && forall|i: int|
                0 <= i < n ==> #[trigger] out[i] == arg_value(items[i])
        }),
    decreases items, n,
{
    if n > 0 {
        arguments_stay(items, (n - 1) as nat, desc, scene, st);
        let (before, mid) = args_p(items, (n - 1) as nat, desc, scene, st);
        an_argument_stays(&items[n - 1], desc, scene, mid);
        let (out, after) = args_p(items, n, desc, scene, st);
        if st.insertions.len() == after.insertions.len() {
            assert forall|i: int| 0 <= i < n implies #[trigger] out[i] == arg_value(items[i]) by {
                if i < n - 1 {
                    assert(out[i] == before[i]);
                }
            }
        }
    }
}

proof fn parts_stay(items: Seq<Part>, n: nat, desc: Seq<char>, scene: SceneV, st: WalkV)
    requires
        n <= items.len(),
    ensures
        ({
            let (out, after) = parts_p(items, n, desc, scene, st);
            &&& st.insertions.len() <= after.insertions.len()
            &&& out.len() == n
            &&& st.insertions.len() == after.insertions.len() ==> after == st && forall|i: int|
                0 <= i < n ==> #[trigger] out[i] == part_value(items[i])
        }),
    decreases items, n,
{
    if n > 0 {
        parts_stay(items, (n - 1) as nat, desc, scene, st);
        let (before, mid) = parts_p(items, (n - 1) as nat, desc, scene, st);
        a_part_stays(&items[n - 1], desc, scene, mid);
        let (out, after) = parts_p(items, n, desc, scene, st);
        if st.insertions.len() == after.insertions.len() {
            assert forall|i: int| 0 <= i < n implies #[trigger] out[i] == part_value(items[i]) by {
                if i < n - 1 {
                    assert(out[i] == before[i]);
                }
            }
        }
    }
}

proof fn declarators_stay(items: Seq<Declarator>, n: nat, desc: Seq<char>, scene: SceneV, st: WalkV)
    requires
        n <= items.len(),
    ensures
        ({
            let (out, after) = declarators_p(items, n, desc, scene, st);
            &&& st.insertions.len() <= after.insertions.len()
            &&& out.len() == n
            &&& st.insertions.len() == after.insertions.len() ==> after == st && forall|i: int|
                0 <= i < n ==> #[trigger] out[i] == declarator_value(items[i])
        }),
    decreases items, n,
{
    if n > 0 {
        declarators_stay(items, (n - 1) as nat, desc, scene, st);
        let (before, mid) = declarators_p(items, (n - 1) as nat, desc, scene, st);
        a_declarator_stays(&items[n - 1], desc, scene, mid);
        let (out, after) = declarators_p(items, n, desc, scene, st);
        if st.insertions.len() == after.insertions.len() {
            assert forall|i: int| 0 <= i < n implies #[trigger] out[i] == declarator_value(items[i]) by {
                if i < n - 1 {
                    assert(out[i] == before[i]);
                }
            }
        }
    }
}

proof fn statements_stay(items: Seq<Rc<Stmt>>, n: nat, desc: Seq<char>, scene: SceneV, st: WalkV)
    requires
        n <= items.len(),
    ensures
        ({
            let (out, after) = stmts_p(items, n, desc, scene, st);
            &&& st.insertions.len() <= after.insertions.len()
            &&& out.len() == n
            &&& st.insertions.len() == after.insertions.len() ==> after == st && forall|i: int|
                0 <= i < n ==> #[trigger] out[i] == stmt_value(*items[i])
        }),
    decreases items, n,
{
    if n > 0 {
        statements_stay(items, (n - 1) as nat, desc, scene, st);
        let (before, mid) = stmts_p(items, (n - 1) as nat, desc, scene, st);
        a_statement_stays(&*items[n - 1], desc, scene, mid);
        let (out, after) = stmts_p(items, n, desc, scene, st);
        if st.insertions.len() == after.insertions.len() {
            assert forall|i: int| 0 <= i < n implies #[trigger] out[i] == stmt_value(*items[i]) by {
                if i < n - 1 {
                    assert(out[i] == before[i]);
                }
            }
        }
    }
}

proof fn an_argument_stays(arg: &Arg, desc: Seq<char>, scene: SceneV, st: WalkV)
    ensures
        ({
            let (out, after) = arg_p(*arg, desc, scene, st);
            &&& st.insertions.len() <= after.insertions.len()
            &&& st.insertions.len() == after.insertions.len() ==> out == arg_value(*arg) && after == st
        }),
    decreases *arg, 0nat,
{
    match arg {
        Arg::Expr(expr) => an_expression_stays(expr, desc, scene, st),
        Arg::Spread(expr) => an_expression_stays(expr, desc, scene, st),
    }
}

proof fn a_part_stays(part: &Part, desc: Seq<char>, scene: SceneV, st: WalkV)
    ensures
        ({
            let (out, after) = part_p(*part, desc, scene, st);
            &&& st.insertions.len() <= after.insertions.len()
            &&& st.insertions.len() == after.insertions.len() ==> out == part_value(*part) && after == st
        }),
    decreases *part, 0nat,
{
    match part {
        Part::Expr(expr) => an_expression_stays(expr, desc, scene, st),
        Part::Stmt(stmt) => a_statement_stays(stmt, desc, scene, st),
    }
}

proof fn params_stay(params: &Params, desc: Seq<char>, scene: SceneV, st: WalkV)
    ensures
        ({
            let (out, after) = params_p(*params, desc, scene, st);
            &&& st.insertions.len() <= after.insertions.len()
            &&& st.insertions.len() == after.insertions.len() ==> out == params_value(*params) && after == st
        }),
    decreases *params, 0nat,
{
    match params {
        Params::One(_) => {},
        Params::Given { id, parts } => {
            parts_stay(parts@, parts@.len(), desc, scene, st);
            let out = parts_p(parts@, parts@.len(), desc, scene, st);
            if out.1.insertions.len() == st.insertions.len() {
                assert(out.0 =~= part_values(parts@));
            }
        },
    }
}

proof fn a_body_stays(body: &Option<Vec<Rc<Stmt>>>, desc: Seq<char>, scene: SceneV, st: WalkV)
    ensures
        ({
            let (out, after) = body_p(*body, desc, scene, st);
            &&& st.insertions.len() <= after.insertions.len()
            &&& st.insertions.len() == after.insertions.len() ==> after == st && (match body {
                None => out is None,
                Some(body) => out == Some(stmt_values(body@)),
            })
        }),
    decreases *body, 0nat,
{
    match body {
        None => {},
        Some(body) => {
            statements_stay(body@, body@.len(), desc, scene, st);
            let out = stmts_p(body@, body@.len(), desc, scene, st);
            if out.1.insertions.len() == st.insertions.len() {
                assert(out.0 =~= stmt_values(body@));
            }
        },
    }
}

proof fn a_function_stays(function: &Function, desc: Seq<char>, scene: SceneV, st: WalkV)
    ensures
        ({
            let (out, after) = function_p(*function, desc, scene, st);
            &&& st.insertions.len() <= after.insertions.len()
            &&& st.insertions.len() == after.insertions.len() ==> out == function_value(*function) && after == st
        }),
    decreases *function, 0nat,
{
    let inner = name_or(function.name, desc);
    let params = function.params@;
    parts_stay(params, params.len(), inner, scene, st);
    let out = parts_p(params, params.len(), inner, scene, st);
    if out.1.insertions.len() == st.insertions.len() {
        assert(out.0 =~= part_values(params));
    }
    a_body_stays(&function.body, inner, scene, out.1);
}

proof fn a_class_stays(class: &Class, desc: Seq<char>, scene: SceneV, st: WalkV)
    ensures
        ({
            let (out, after) = class_p(*class, desc, scene, st);
            &&& st.insertions.len() <= after.insertions.len()
            &&& st.insertions.len() == after.insertions.len() ==> out == class_value(*class) && after == st
        }),
    decreases *class, 0nat,
{
    let parts = class.parts@;
    parts_stay(parts, parts.len(), desc, scene, st);
    let out = parts_p(parts, parts.len(), desc, scene, st);
    if out.1.insertions.len() == st.insertions.len() {
        assert(out.0 =~= part_values(parts));
    }
}

proof fn an_option_stays(option: &Option<Rc<Expr>>, desc: Seq<char>, scene: SceneV, st: WalkV)
    ensures
        ({
            let (out, after) = option_p(*option, desc, scene, st);
            &&& st.insertions.len() <= after.insertions.len()
            &&& st.insertions.len() == after.insertions.len() ==> out == option_value(*option) && after == st
        }),
    decreases *option, 0nat,
{
    match option {
        None => {},
        Some(expr) => an_expression_stays(expr, desc, scene, st),
    }
}

proof fn another_stays(other: &Option<Rc<Stmt>>, desc: Seq<char>, scene: SceneV, st: WalkV)
    ensures
        ({
            let (out, after) = other_p(*other, desc, scene, st);
            &&& st.insertions.len() <= after.insertions.len()
            &&& st.insertions.len() == after.insertions.len() ==> out == other_value(*other) && after == st
        }),
    decreases *other, 0nat,
{
    match other {
        None => {},
        Some(stmt) => a_statement_stays(stmt, desc, scene, st),
    }
}

proof fn a_pattern_stays(pattern: &Pattern, desc: Seq<char>, scene: SceneV, st: WalkV)
    ensures
        ({
            let (out, after) = pattern_p(*pattern, desc, scene, st);
            &&& st.insertions.len() <= after.insertions.len()
            &&& st.insertions.len() == after.insertions.len() ==> out == pattern_value(*pattern) && after == st
        }),
    decreases *pattern, 0nat,
{
    match pattern {
        Pattern::Ident(_) => {},
        Pattern::Opaque { id, names, parts } => {
            parts_stay(parts@, parts@.len(), desc, scene, st);
            let out = parts_p(parts@, parts@.len(), desc, scene, st);
            if out.1.insertions.len() == st.insertions.len() {
                assert(out.0 =~= part_values(parts@));
            }
        },
    }
}

proof fn a_declarator_stays(declarator: &Declarator, desc: Seq<char>, scene: SceneV, st: WalkV)
    ensures
        ({
            let (out, after) = declarator_p(*declarator, desc, scene, st);
            &&& st.insertions.len() <= after.insertions.len()
            &&& st.insertions.len() == after.insertions.len() ==> out == declarator_value(*declarator) && after == st
        }),
    decreases *declarator, 0nat,
{
    a_pattern_stays(&declarator.pattern, desc, scene, st);
    let mid = pattern_p(declarator.pattern, desc, scene, st).1;
    an_option_stays(&declarator.init, desc, scene, mid);
}

proof fn variables_stay(variables: &Variables, desc: Seq<char>, scene: SceneV, st: WalkV)
    ensures
        ({
            let (out, after) = variables_p(*variables, desc, scene, st);
            &&& st.insertions.len() <= after.insertions.len()
            &&& st.insertions.len() == after.insertions.len() ==> out == variables_value(*variables) && after == st
        }),
    decreases *variables, 0nat,
{
    let items = variables.declarators@;
    declarators_stay(items, items.len(), desc, scene, st);
    let out = declarators_p(items, items.len(), desc, scene, st);
    if out.1.insertions.len() == st.insertions.len() {
        assert(out.0 =~= declarator_values(items));
    }
}

proof fn a_declaration_stays(declaration: &Declaration, desc: Seq<char>, scene: SceneV, st: WalkV)
    ensures
        ({
            let (out, after) = declaration_p(*declaration, desc, scene, st);
            &&& st.insertions.len() <= after.insertions.len()
            &&& st.insertions.len() == after.insertions.len() ==> out == declaration_value(*declaration) && after == st
        }),
    decreases *declaration, 0nat,
{
    match declaration {
        Declaration::Variables(variables) => variables_stay(variables, desc, scene, st),
        Declaration::Function(function) => a_function_stays(function, desc, scene, st),
        Declaration::Class(class) => a_class_stays(class, desc, scene, st),
        Declaration::Node { id, parts } => {
            parts_stay(parts@, parts@.len(), desc, scene, st);
            let out = parts_p(parts@, parts@.len(), desc, scene, st);
            if out.1.insertions.len() == st.insertions.len() {
                assert(out.0 =~= part_values(parts@));
            }
        },
    }
}

proof fn an_export_stays(exported: &Exported, desc: Seq<char>, scene: SceneV, st: WalkV)
    ensures
        ({
            let (out, after) = exported_p(*exported, desc, scene, st);
            &&& st.insertions.len() <= after.insertions.len()
            &&& st.insertions.len() == after.insertions.len() ==> out == exported_value(*exported) && after == st
        }),
    decreases *exported, 0nat,
{
    match exported {
        Exported::Function(function) => a_function_stays(function, desc, scene, st),
        Exported::Class(class) => a_class_stays(class, desc, scene, st),
        Exported::Interface(_) => {},
        Exported::Expr(expr) => an_expression_stays(expr, desc, scene, st),
    }
}

/// A statement out of which no template was made is as it was.
pub proof fn a_statement_stays(stmt: &Stmt, desc: Seq<char>, scene: SceneV, st: WalkV)
    ensures
        ({
            let (out, after) = stmt_p(*stmt, desc, scene, st);
            &&& st.insertions.len() <= after.insertions.len()
            &&& st.insertions.len() == after.insertions.len() ==> out == stmt_value(*stmt) && after == st
        }),
    decreases *stmt, 0nat,
{
    match stmt {
        Stmt::Variables(variables) => variables_stay(variables, desc, scene, st),
        Stmt::Function(function) => a_function_stays(function, desc, scene, st),
        Stmt::Class(class) => a_class_stays(class, desc, scene, st),
        Stmt::ExportNamed { id, declaration } => match declaration {
            Some(declaration) => a_declaration_stays(declaration, desc, scene, st),
            None => {},
        },
        Stmt::ExportDefault { id, exported } => an_export_stays(exported, desc, scene, st),
        Stmt::Expr(expr) => an_expression_stays(expr, desc, scene, st),
        Stmt::Return(expr) => an_option_stays(expr, desc, scene, st),
        Stmt::If { test, consequent, alternate } => {
            an_expression_stays(test, desc, scene, st);
            let first = behind(test, desc, scene, st);
            a_statement_stays(consequent, desc, scene, first);
            let second = behind_stmt(consequent, desc, scene, first);
            another_stays(alternate, desc, scene, second);
        },
        Stmt::Block(body) => {
            statements_stay(body@, body@.len(), desc, scene, st);
            let out = stmts_p(body@, body@.len(), desc, scene, st);
            if out.1.insertions.len() == st.insertions.len() {
                assert(out.0 =~= stmt_values(body@));
            }
        },
        Stmt::Node { id, parts } => {
            parts_stay(parts@, parts@.len(), desc, scene, st);
            let out = parts_p(parts@, parts@.len(), desc, scene, st);
            if out.1.insertions.len() == st.insertions.len() {
                assert(out.0 =~= part_values(parts@));
            }
        },
        _ => {},
    }
}

/// A statement of a file comes behind the templates that were made out of it, and
/// alone and unchanged where none was.
pub proof fn a_file_statement_stays(stmt: &Stmt, scene: SceneV, taken: Seq<Seq<char>>)
    ensures
        root_p(*stmt, scene, taken).0.len() > 0,
        root_p(*stmt, scene, taken).0.len() == 1 ==> root_p(*stmt, scene, taken).0[0] == stmt_value(
            *stmt,
        ) && root_p(*stmt, scene, taken).1 == taken,
{
    a_statement_stays(
        stmt,
        crate::refresh_names::descriptive_name(*stmt),
        scene,
        WalkV { taken, insertions: Seq::empty() },
    );
}

} // verus!
