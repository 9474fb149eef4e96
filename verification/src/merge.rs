//! Results of elements, and how a result takes in those of its children.

use crate::ast::{expr_values, stmt_values, Expr, ExprV, Span, Stmt, StmtV};
use crate::ir::{
    binding_values, declaration_values, empty_result, opt, result_value, result_values, Declaration,
    DynamicBinding, ResultV, TransformResult,
};
use crate::make::copied;
use crate::outside::share;
use std::rc::Rc;
use vstd::prelude::*;

verus! {

/// Statements of expressions.
pub open spec fn as_statements(exprs: Seq<ExprV>) -> Seq<StmtV> {
    exprs.map_values(|e: ExprV| StmtV::Expr(e))
}

impl ResultV {
    pub open spec fn with_id(self, id: Seq<char>) -> ResultV {
        ResultV { id: Some(id), ..self }
    }

    /// With this text alone in both templates.
    pub open spec fn starting(self, text: Seq<char>) -> ResultV {
        ResultV { template: text, closed: text, ..self }
    }

    /// With more text in the closed template alone.
    pub open spec fn with_closed(self, text: Seq<char>) -> ResultV {
        ResultV { closed: self.closed + text, ..self }
    }

    /// With the templates of a child.
    pub open spec fn with_child_template(self, child: ResultV) -> ResultV {
        ResultV {
            template: self.template + child.template,
            closed: self.closed + if child.closed.len() > 0 {
                child.closed
            } else {
                child.template
            },
            ..self
        }
    }

    /// With what is run for a child.  Statements of the child come behind all
    /// that is run so far.
    pub open spec fn with_child(self, child: ResultV) -> ResultV {
        let said = if child.statements.len() > 0 && self.exprs.len() > 0 {
            ResultV {
                statements: self.statements + as_statements(self.exprs),
                exprs: seq![],
                ..self
            }
        } else {
            self
        };
        ResultV {
            declarations: said.declarations + child.declarations,
            statements: said.statements + child.statements,
            exprs: said.exprs + child.exprs,
            dynamics: said.dynamics + child.dynamics,
            post_exprs: said.post_exprs + child.post_exprs,
            has_custom_element: said.has_custom_element || child.has_custom_element,
            has_hydratable_event: said.has_hydratable_event || child.has_hydratable_event,
            is_import_node: said.is_import_node || child.is_import_node,
            ..said
        }
    }
}

/// Moves expressions behind statements.
fn state(statements: &mut Vec<Stmt>, exprs: Vec<Rc<Expr>>)
    ensures
        stmt_values(final(statements)@) == stmt_values(old(statements)@) + as_statements(
            expr_values(exprs@),
        ),
{
    let mut i: usize = 0;
    while i < exprs.len()
        invariant
            i <= exprs.len(),
            statements@.len() == old(statements)@.len() + i,
            forall|k: int|
                0 <= k < old(statements)@.len() ==> #[trigger] statements@[k] == old(
                    statements,
                )@[k],
            forall|k: int|
                0 <= k < i ==> #[trigger] statements@[old(statements)@.len() + k] == Stmt::Expr(
                    exprs@[k],
                ),
        decreases exprs.len() - i,
    {
        statements.push(Stmt::Expr(share(&exprs[i])));
        i = i + 1;
    }
    proof {
        let n = old(statements)@.len();
        let want = stmt_values(old(statements)@) + as_statements(expr_values(exprs@));
        assert forall|k: int| 0 <= k < want.len() implies #[trigger] stmt_values(statements@)[k]
            == want[k] by {
            if k >= n {
                assert(statements@[n + (k - n)] == Stmt::Expr(exprs@[k - n]));
            } else {
                assert(statements@[k] == old(statements)@[k]);
            }
        }
        assert(stmt_values(statements@) =~= want);
    }
}

pub proof fn results_at(items: Seq<TransformResult>, i: int)
    requires
        0 <= i < items.len(),
    ensures
        result_values(items).len() == items.len(),
        result_values(items)[i] == items[i]@,
{
    reveal_with_fuel(result_values, 2);
    reveal_with_fuel(result_value, 2);
}

pub proof fn results_none(items: Seq<TransformResult>)
    requires
        items.len() == 0,
    ensures
        result_values(items) == Seq::<ResultV>::empty(),
{
    assert(result_values(items) =~= Seq::<ResultV>::empty());
}

pub proof fn results_push(items: Seq<TransformResult>, item: TransformResult)
    ensures
        result_values(items.push(item)) == result_values(items).push(item@),
{
    let more = items.push(item);
    assert forall|i: int| 0 <= i < more.len() implies result_values(more)[i] == result_values(
        items,
    ).push(item@)[i] by {
        results_at(more, i);
        if i < items.len() {
            results_at(items, i);
        }
    }
    assert(result_values(more) =~= result_values(items).push(item@));
}

pub proof fn results_remove_first(items: Seq<TransformResult>)
    requires
        items.len() > 0,
    ensures
        result_values(items).len() == items.len(),
        result_values(items)[0] == items[0]@,
        result_values(items.remove(0)) == result_values(items).skip(1),
{
    let rest = items.remove(0);
    results_at(items, 0);
    assert forall|i: int| 0 <= i < rest.len() implies result_values(rest)[i] == result_values(
        items,
    ).skip(1)[i] by {
        results_at(rest, i);
        results_at(items, i + 1);
    }
    assert(result_values(rest) =~= result_values(items).skip(1));
}

/// The lists and marks of a result.
proof fn lists(result: TransformResult)
    ensures
        result@.declarations == declaration_values(result.declarations@),
        result@.statements == stmt_values(result.statements@),
        result@.exprs == expr_values(result.exprs@),
        result@.dynamics == binding_values(result.dynamics@),
        result@.post_exprs == expr_values(result.post_exprs@),
        result@.has_custom_element == result.has_custom_element,
        result@.has_hydratable_event == result.has_hydratable_event,
        result@.is_import_node == result.is_import_node,
{
    reveal(result_value);
}

/// The value of a result, part by part.
pub proof fn parts(result: TransformResult)
    ensures
        result@.span == result.span,
        result@.template == result.template@,
        result@.closed == result.template_with_closing_tags@,
        result@.declarations == declaration_values(result.declarations@),
        result@.statements == stmt_values(result.statements@),
        result@.exprs == expr_values(result.exprs@),
        result@.dynamics == binding_values(result.dynamics@),
        result@.post_exprs == expr_values(result.post_exprs@),
        result@.has_custom_element == result.has_custom_element,
        result@.has_hydratable_event == result.has_hydratable_event,
        result@.is_import_node == result.is_import_node,
        result@.id == opt(result.id),
        result@.text == result.text,
        result@.needs_memo == result.needs_memo,
        result@.child_results == result_values(result.child_results@),
        result@.universal_output == match result.universal_output {
            None => None,
            Some(expr) => Some(expr@),
        },
{
    reveal(result_value);
}

impl TransformResult {
    /// The result of an element, with nothing in it yet.
    pub fn of_element(
        span: Span,
        tag: &str,
        is_svg: bool,
        template_is_svg: bool,
        has_custom_element: bool,
        is_import_node: bool,
    ) -> (result: TransformResult)
        ensures
            result@ == (ResultV {
                span,
                tag_name: Some(tag@),
                is_svg,
                template_is_svg,
                has_custom_element,
                is_import_node,
                ..empty_result()
            }),
    {
        let mut result = TransformResult::default();
        proof {
            reveal(result_value);
        }
        result.span = span;
        result.tag_name = Some(copied(tag));
        result.is_svg = is_svg;
        result.template_is_svg = template_is_svg;
        result.has_custom_element = has_custom_element;
        result.is_import_node = is_import_node;
        result
    }

    /// The result of a text.
    pub fn of_text(span: Span, text: String, id: Option<String>) -> (result: TransformResult)
        ensures
            result@ == (ResultV {
                span,
                template: text@,
                text: true,
                id: opt(id),
                ..empty_result()
            }),
    {
        let mut result = TransformResult::default();
        proof {
            reveal(result_value);
        }
        result.span = span;
        result.template = text;
        result.text = true;
        result.id = id;
        result
    }

    /// The result of an expression.
    pub fn of_expr(span: Span, expr: Rc<Expr>) -> (result: TransformResult)
        ensures
            result@ == (ResultV { span, exprs: seq![expr@], ..empty_result() }),
    {
        let mut result = TransformResult::default();
        result.push_expr(expr);
        proof {
            assert(result@.exprs =~= seq![expr@]);
            reveal(result_value);
        }
        result.span = span;
        result
    }

    /// Adds statements before all others.
    pub fn prepend_statements(&mut self, first: Vec<Stmt>)
        ensures
            final(self)@ == (ResultV {
                statements: stmt_values(first@) + old(self)@.statements,
                ..old(self)@
            }),
    {
        proof {
            reveal(result_value);
        }
        let mut all = first;
        let mut rest: Vec<Stmt> = Vec::new();
        std::mem::swap(&mut rest, &mut self.statements);
        let ghost tail = rest@;
        all.append(&mut rest);
        proof {
            assert(stmt_values(all@) =~= stmt_values(first@) + stmt_values(tail));
        }
        self.statements = all;
    }

    pub fn set_id(&mut self, id: String)
        ensures
            final(self)@ == old(self)@.with_id(id@),
    {
        proof {
            reveal(result_value);
        }
        self.id = Some(id);
    }

    /// Puts this text alone into both templates.
    pub fn start_template(&mut self, text: &str)
        ensures
            final(self)@ == old(self)@.starting(text@),
    {
        proof {
            reveal(result_value);
        }
        self.template = copied(text);
        self.template_with_closing_tags = copied(text);
    }

    pub fn push_closed(&mut self, text: &str)
        ensures
            final(self)@ == old(self)@.with_closed(text@),
    {
        proof {
            reveal(result_value);
        }
        self.template_with_closing_tags.append(text);
    }

    /// Takes in the templates of a child.
    pub fn push_child_template(&mut self, child: &TransformResult)
        ensures
            final(self)@ == old(self)@.with_child_template(child@),
    {
        proof {
            reveal(result_value);
        }
        self.template.append(child.template.as_str());
        if child.template_with_closing_tags.as_str().unicode_len() > 0 {
            self.template_with_closing_tags.append(child.template_with_closing_tags.as_str());
        } else {
            self.template_with_closing_tags.append(child.template.as_str());
        }
    }

    /// Takes out the expressions that are run last.
    pub fn take_post_exprs(&mut self) -> (taken: Vec<Rc<Expr>>)
        ensures
            expr_values(taken@) == old(self)@.post_exprs,
            final(self)@ == (ResultV { post_exprs: seq![], ..old(self)@ }),
    {
        proof {
            reveal(result_value);
        }
        let mut taken: Vec<Rc<Expr>> = Vec::new();
        std::mem::swap(&mut taken, &mut self.post_exprs);
        proof {
            assert(expr_values(self.post_exprs@) =~= seq![]);
        }
        taken
    }

    /// Adds declarations.
    pub fn append_declarations(&mut self, items: Vec<Declaration>)
        ensures
            final(self)@ == (ResultV {
                declarations: old(self)@.declarations + declaration_values(items@),
                ..old(self)@
            }),
    {
        proof {
            reveal(result_value);
        }
        let mut more = items;
        self.declarations.append(&mut more);
        proof {
            assert(declaration_values(self.declarations@) =~= old(self)@.declarations + declaration_values(items@));
        }
    }

    /// Adds statements.
    pub fn append_statements(&mut self, items: Vec<Stmt>)
        ensures
            final(self)@ == (ResultV {
                statements: old(self)@.statements + stmt_values(items@),
                ..old(self)@
            }),
    {
        proof {
            reveal(result_value);
        }
        let mut more = items;
        self.statements.append(&mut more);
        proof {
            assert(stmt_values(self.statements@) =~= old(self)@.statements + stmt_values(items@));
        }
    }

    /// Adds expressions.
    pub fn append_exprs(&mut self, items: Vec<Rc<Expr>>)
        ensures
            final(self)@ == (ResultV {
                exprs: old(self)@.exprs + expr_values(items@),
                ..old(self)@
            }),
    {
        proof {
            reveal(result_value);
        }
        let mut more = items;
        self.exprs.append(&mut more);
        proof {
            assert(expr_values(self.exprs@) =~= old(self)@.exprs + expr_values(items@));
        }
    }

    /// Adds attributes that effects keep up to date.
    pub fn append_bindings(&mut self, items: Vec<DynamicBinding>)
        ensures
            final(self)@ == (ResultV {
                dynamics: old(self)@.dynamics + binding_values(items@),
                ..old(self)@
            }),
    {
        proof {
            reveal(result_value);
        }
        let mut more = items;
        self.dynamics.append(&mut more);
        proof {
            assert(binding_values(self.dynamics@) =~= old(self)@.dynamics + binding_values(items@));
        }
    }

    /// Adds expressions that are run last.
    pub fn append_post_exprs(&mut self, items: Vec<Rc<Expr>>)
        ensures
            final(self)@ == (ResultV {
                post_exprs: old(self)@.post_exprs + expr_values(items@),
                ..old(self)@
            }),
    {
        proof {
            reveal(result_value);
        }
        let mut more = items;
        self.post_exprs.append(&mut more);
        proof {
            assert(expr_values(self.post_exprs@) =~= old(self)@.post_exprs + expr_values(items@));
        }
    }

    /// Makes statements of the expressions that are run.
    fn state_exprs(&mut self)
        ensures
            final(self)@ == (ResultV {
                statements: old(self)@.statements + as_statements(old(self)@.exprs),
                exprs: seq![],
                ..old(self)@
            }),
    {
        proof {
            reveal(result_value);
        }
        let mut exprs: Vec<Rc<Expr>> = Vec::new();
        std::mem::swap(&mut exprs, &mut self.exprs);
        state(&mut self.statements, exprs);
        proof {
            assert(expr_values(self.exprs@) =~= seq![]);
        }
    }

    fn note_marks(&mut self, custom: bool, event: bool, import: bool)
        ensures
            final(self)@ == (ResultV {
                has_custom_element: old(self)@.has_custom_element || custom,
                has_hydratable_event: old(self)@.has_hydratable_event || event,
                is_import_node: old(self)@.is_import_node || import,
                ..old(self)@
            }),
    {
        proof {
            reveal(result_value);
        }
        self.has_custom_element = self.has_custom_element || custom;
        self.has_hydratable_event = self.has_hydratable_event || event;
        self.is_import_node = self.is_import_node || import;
    }

    /// Takes in what is run for a child.
    pub fn push_child(&mut self, child: TransformResult)
        ensures
            final(self)@ == old(self)@.with_child(child@),
    {
        proof {
            lists(child);
            lists(*self);
        }
        if child.statements.len() > 0 && self.exprs.len() > 0 {
            self.state_exprs();
        }
        self.append_declarations(child.declarations);
        self.append_statements(child.statements);
        self.append_exprs(child.exprs);
        self.append_bindings(child.dynamics);
        self.append_post_exprs(child.post_exprs);
        self.note_marks(
            child.has_custom_element,
            child.has_hydratable_event,
            child.is_import_node,
        );
    }
}

} // verus!
