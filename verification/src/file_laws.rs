//! What holds of every file that was put together.

use crate::ast::{DeclaratorV, Expr, ExprV, Kind, KindV, PatternV, Stmt, StmtV, VarKind};
use crate::capture::{expr_r, RewriteV};
use crate::capture_class::{
    arrow_caught, caught, caught_stmt, member_caught, members_caught, property_caught, ClassMember,
};
use crate::capture_laws::{expression_without_this_stays, only_counts};
use crate::file::{file_back, file_bound, file_caught, file_flat, file_front, FileStmt, FileStmtV};
use crate::imports::{first_at, plain_order};
use crate::ir::{template_name, ContextV, ImportV, TemplateV};
use crate::options::TransformOptions;
use crate::program::{
    cooked, delegation_v, plain_imports, template_call_v, template_declarators,
    template_text_reads_back,
};
use crate::shape::{arg, calls_helper, is_flag, is_text};
use vstd::prelude::*;

verus! {

proof fn expression_counts(expr: &Expr, held: Seq<u32>, st: RewriteV)
    ensures
        only_counts(st.context, expr_r(*expr, held, st).1.context),
{
    expression_without_this_stays(expr, held, st);
}

proof fn statement_counts(stmt: &Stmt, held: Seq<u32>, st: RewriteV)
    ensures
        only_counts(st.context, caught_stmt(*stmt, held, st).1.context),
    decreases *stmt, 0nat,
{
    match stmt {
        Stmt::Expr(expr) => expression_counts(expr, held, st.fresh()),
        Stmt::Return(Some(expr)) => expression_counts(expr, held, st.fresh()),
        Stmt::Block(body) => statements_count(body@, body@.len(), held, st),
        _ => {},
    }
}

proof fn statements_count(stmts: Seq<Stmt>, n: nat, held: Seq<u32>, st: RewriteV)
    ensures
        only_counts(st.context, caught(stmts, n, held, st).1.context),
    decreases stmts, n,
{
    if 0 < n <= stmts.len() {
        statements_count(stmts, (n - 1) as nat, held, st);
        let mid = caught(stmts, (n - 1) as nat, held, st).1;
        statement_counts(&stmts[n - 1], held, mid);
    }
}

proof fn arrow_counts(expression: bool, body: Seq<Stmt>, held: Seq<u32>, st: RewriteV)
    ensures
        only_counts(st.context, arrow_caught(expression, body, held, st).2.context),
{
    if !expression {
        statements_count(body, body.len(), held, st);
    } else if body.len() > 0 {
        match &body[0] {
            Stmt::Expr(expr) => expression_counts(expr, held, st.fresh()),
            _ => {},
        }
    }
}

proof fn property_counts(expr: &Expr, held: Seq<u32>, st: RewriteV)
    ensures
        only_counts(st.context, property_caught(*expr, held, st).1.context),
    decreases *expr,
{
    match &expr.kind {
        Kind::Paren(inner) => property_counts(inner, held, st),
        Kind::Typed { wrapper, expr: inner } => property_counts(inner, held, st),
        Kind::Arrow { is_async, params, expression, body } => arrow_counts(
            *expression,
            body@,
            held,
            st,
        ),
        Kind::Function { is_async, generator, name, params, body } => statements_count(
            body@,
            body@.len(),
            held,
            st,
        ),
        _ => expression_counts(expr, held, st.fresh()),
    }
}

proof fn member_counts(member: &ClassMember, held: Seq<u32>, st: RewriteV)
    ensures
        only_counts(st.context, member_caught(*member, held, st).1.context),
{
    match member {
        ClassMember::Method(Some(body)) => statements_count(body@, body@.len(), held, st),
        ClassMember::Property(Some(value)) => property_counts(value, held, st),
        _ => {},
    }
}

proof fn members_count(members: Seq<ClassMember>, n: nat, held: Seq<u32>, st: RewriteV)
    requires
        n <= members.len(),
    ensures
        only_counts(st.context, members_caught(members, n, held, st).1.context),
    decreases n,
{
    if n > 0 {
        members_count(members, (n - 1) as nat, held, st);
        let mid = members_caught(members, (n - 1) as nat, held, st).1;
        member_counts(&members[n - 1], held, mid);
    }
}

/// To bind `this` in the classes of a file changes nothing of what the file has
/// gathered but the numbers of its variables.
pub proof fn binding_this_keeps_the_rest(
    items: Seq<FileStmt>,
    n: nat,
    held: Seq<u32>,
    st: RewriteV,
)
    requires
        n <= items.len(),
    ensures
        only_counts(st.context, file_caught(items, n, held, st).1.context),
    decreases n,
{
    if n > 0 {
        binding_this_keeps_the_rest(items, (n - 1) as nat, held, st);
        let mid = file_caught(items, (n - 1) as nat, held, st).1;
        match &items[n - 1] {
            FileStmt::Class { id, members } => members_count(members@, members@.len(), held, mid),
            FileStmt::Plain(_) => {},
        }
    }
}

/// An expression is a template literal without expressions that reads as a text.
pub open spec fn reads_as_text(literal: ExprV, text: Seq<char>) -> bool {
    literal.kind matches KindV::Template { quasis, exprs } && exprs.len() == 0 && quasis.len() == 1
        && quasis[0].cooked == Some(text) && cooked(quasis[0].raw) == text
}

/// An expression is the call that makes a template: the literal alone, or the
/// literal and whether it is imported, whether it is SVG and whether it is
/// MathML, in this order.
pub open spec fn makes_template(call: ExprV, tmpl: TemplateV) -> bool {
    &&& reads_as_text(arg(call, 0), tmpl.content)
    &&& if tmpl.use_import_node || tmpl.is_svg || tmpl.is_math_ml {
        &&& calls_helper(call, "template"@, 4)
        &&& is_flag(arg(call, 1), tmpl.use_import_node)
        &&& is_flag(arg(call, 2), tmpl.is_svg)
        &&& is_flag(arg(call, 3), tmpl.is_math_ml)
    } else {
        calls_helper(call, "template"@, 1)
    }
}

/// A template is made from its own content and told its own kind.
pub proof fn a_template_is_made(tmpl: TemplateV)
    ensures
        makes_template(template_call_v(tmpl), tmpl),
        tmpl.is_svg && !tmpl.is_math_ml ==> is_flag(arg(template_call_v(tmpl), 2), true)
            && is_flag(arg(template_call_v(tmpl), 3), false),
        tmpl.is_math_ml && !tmpl.is_svg ==> is_flag(arg(template_call_v(tmpl), 2), false)
            && is_flag(arg(template_call_v(tmpl), 3), true),
        tmpl.use_import_node ==> is_flag(arg(template_call_v(tmpl), 1), true),
{
    template_text_reads_back(tmpl.content);
}

/// An expression delegates these events, in this order.
pub open spec fn delegates(call: ExprV, events: Seq<Seq<char>>) -> bool {
    &&& calls_helper(call, "delegateEvents"@, 1)
    &&& arg(call, 0).kind matches KindV::Array(items) && items.len() == events.len() && forall|
        i: int,
    |
        0 <= i < items.len() ==> (#[trigger] items[i]) is Expr && is_text(
            items[i]->Expr_0,
            events[i],
        )
}

/// Every event is delegated under its own name.
pub proof fn events_are_delegated(events: Seq<Seq<char>>)
    ensures
        delegates(delegation_v(events), events),
{
}

/// A declaration of the template of this number.
pub open spec fn declares_template(declarator: DeclaratorV, i: nat, tmpl: TemplateV) -> bool {
    &&& declarator.pattern == PatternV::Ident(template_name(i))
    &&& declarator.init matches Some(call) && makes_template(call, tmpl)
}

/// The templates of a file are the variables of its first statement, in the
/// order of their numbers: each is a call with a literal that reads back as the
/// content of the template.  The last statement delegates the events of the
/// file, each once and in the order in which they came.
pub proof fn a_finished_file(
    items: Seq<FileStmt>,
    held: Seq<u32>,
    ctx: ContextV,
    options: TransformOptions,
)
    requires
        ctx.well_formed(),
    ensures
        ({
            let (bound, st) = file_bound(items, held, ctx);
            let all = file_front(st.context, options) + file_flat(bound, bound.len()) + file_back(
                st.context,
            );
            &&& ctx.templates.len() > 0 && !(options.generate is Universal) ==> {
                &&& all.len() > 0
                &&& all[0] matches FileStmtV::Plain(StmtV::Var { kind, declarators })
                &&& kind == VarKind::Var
                &&& declarators.len() == ctx.templates.len()
                &&& forall|i: int|
                    0 <= i < declarators.len() ==> declares_template(
                        #[trigger] declarators[i],
                        i as nat,
                        ctx.templates[i],
                    )
            }
            &&& ctx.delegates.len() > 0 ==> {
                &&& all.len() > 0
                &&& all.last() matches FileStmtV::Plain(StmtV::Expr(call)) && delegates(
                    call,
                    ctx.delegates,
                )
                &&& ctx.delegates.no_duplicates()
            }
        }),
{
    if ctx.helpers.contains("createComponent"@) {
        binding_this_keeps_the_rest(items, items.len(), held, crate::file::unwritten(ctx));
    }
    let (bound, st) = file_bound(items, held, ctx);
    assert(st.context.templates == ctx.templates);
    assert(st.context.delegates == ctx.delegates);
    let want = template_declarators(ctx.templates);
    assert forall|i: int| 0 <= i < want.len() implies declares_template(
        #[trigger] want[i],
        i as nat,
        ctx.templates[i],
    ) by {
        a_template_is_made(ctx.templates[i]);
    }
    events_are_delegated(ctx.delegates);
}

// ---------------------------------------------------------------------------
// Imports
// ---------------------------------------------------------------------------

/// A helper is imported under its own name, with `_$` before it, from the
/// module.
pub proof fn helpers_are_imported(helpers: Seq<Seq<char>>, module: Seq<char>)
    ensures
        plain_imports(helpers, module).len() == helpers.len(),
        forall|i: int|
            0 <= i < helpers.len() ==> {
                let (name, local, from) = #[trigger] plain_imports(helpers, module)[i];
                name == helpers[i] && local == seq!['_', '$'] + helpers[i] && from == module
            },
{
    reveal_strlit("_$");
    assert("_$"@ =~= seq!['_', '$']);
}

/// The templates come first among the imports, and then the others, the last
/// registered first.
pub proof fn imports_come_last_first(list: Seq<ImportV>)
    requires
        first_at(list, "getNextMatch"@) is None,
        list.len() != 3,
    ensures
        ({
            let out = plain_order(list, false);
            &&& out.len() == list.len()
            &&& first_at(list, "template"@) is None ==> forall|k: int|
                0 <= k < out.len() ==> #[trigger] out[k] == list[list.len() - 1 - k]
            &&& first_at(list, "template"@) matches Some(at) ==> at < list.len() && out[0]
                == list[at as int] && out[0].0 == "template"@ && forall|k: int|
                1 <= k < out.len() ==> #[trigger] out[k] == list.remove(at as int)[list.len() - 1 - k]
        }),
{
    reveal(plain_order);
    reveal(crate::imports::walkers_first);
    crate::imports::first_at_is(list, "template"@);
    let parts = crate::imports::drawn(list, "template"@);
    let turned = parts.0 + parts.1.reverse();
    assert(turned.len() == list.len());
    crate::imports::first_at_is(list, "getNextMatch"@);
    crate::imports::first_at_is(turned, "getNextMatch"@);
    if let Some(k) = first_at(turned, "getNextMatch"@) {
        let import = turned[k as int];
        if parts.0.len() == 0 {
            assert(import == list[list.len() - 1 - k]);
        } else {
            let at = first_at(list, "template"@)->0 as int;
            if k == 0 {
                assert(import == list[at]);
            } else {
                let j = parts.1.len() - k;
                assert(import == parts.1[j]);
                if j < at {
                    assert(parts.1[j] == list[j]);
                } else {
                    assert(parts.1[j] == list[j + 1]);
                }
            }
        }
    }
}

} // verus!
