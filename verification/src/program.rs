//! What a file gets around its body: imports, templates and delegated events.

use crate::ast::{
    declarator_values, expr_values, group_values, no_span, nowhere, quasi_values, Declarator,
    DeclaratorV, Expr, ExprV, KindV, Pattern, PatternV, Quasi, QuasiV, Stmt, StmtV, VarKind,
};
use crate::imports::{
    import_values, mixed_order, new_imports, order_helpers, order_mixed_helpers, plain_order,
    without_taken,
};
use crate::ir::{
    helper_ident_expr, helper_local_name, helper_name, helper_v, template_name, template_values,
    template_var_name, BlockContext, ContextV, HelperImport, ImportV, TemplateInfo, TemplateV,
};
use crate::make::{
    array, array_v, bool_v, boolean, call1, call4, call_v, copied, node_v, str_v, string, template,
};
use crate::options::{dom_module, GenerateMode, TransformOptions};
use crate::outside::push_char;
use crate::text::{chars_of, texts};
use std::rc::Rc;
use vstd::prelude::*;

verus! {

broadcast use group_values;

// ---------------------------------------------------------------------------
// Template literals
// ---------------------------------------------------------------------------

/// How a character is written in a template literal.
pub open spec fn template_char(c: char) -> Seq<char> {
    if c == '{' || c == '`' || c == '\\' {
        seq!['\\', c]
    } else if c == '\n' {
        seq!['\\', 'n']
    } else if c == '\t' {
        seq!['\\', 't']
    } else if c == '\u{0008}' {
        seq!['\\', 'b']
    } else if c == '\u{000C}' {
        seq!['\\', 'f']
    } else if c == '\u{000B}' {
        seq!['\\', 'v']
    } else if c == '\r' {
        seq!['\\', 'r']
    } else if c == '\u{2028}' {
        seq!['\\', 'u', '2', '0', '2', '8']
    } else if c == '\u{2029}' {
        seq!['\\', 'u', '2', '0', '2', '9']
    } else {
        seq![c]
    }
}

/// How a text is written in a template literal.
pub open spec fn template_text(text: Seq<char>) -> Seq<char>
    decreases text.len(),
{
    if text.len() == 0 {
        seq![]
    } else {
        template_text(text.drop_last()) + template_char(text.last())
    }
}

fn push_escape(escaped: &mut String, c: char)
    ensures
        final(escaped)@ == old(escaped)@ + seq!['\\', c],
{
    push_char(escaped, '\\');
    push_char(escaped, c);
    proof {
        assert(escaped@ =~= old(escaped)@ + seq!['\\', c]);
    }
}

/// How a text is written in a template literal.
pub fn escape_string_for_template(raw: &str) -> (escaped: String)
    ensures
        escaped@ == template_text(raw@),
{
    let chars = chars_of(raw);
    let mut escaped = String::new();
    let mut i: usize = 0;
    while i < chars.len()
        invariant
            i <= chars.len(),
            chars@ == raw@,
            escaped@ == template_text(raw@.take(i as int)),
        decreases chars.len() - i,
    {
        let c = chars[i];
        let ghost before = escaped@;
        proof {
            assert(raw@.take(i + 1).drop_last() =~= raw@.take(i as int));
        }
        if c == '{' || c == '`' || c == '\\' {
            push_escape(&mut escaped, c);
        } else if c == '\n' {
            push_escape(&mut escaped, 'n');
        } else if c == '\t' {
            push_escape(&mut escaped, 't');
        } else if c == '\u{0008}' {
            push_escape(&mut escaped, 'b');
        } else if c == '\u{000C}' {
            push_escape(&mut escaped, 'f');
        } else if c == '\u{000B}' {
            push_escape(&mut escaped, 'v');
        } else if c == '\r' {
            push_escape(&mut escaped, 'r');
        } else if c == '\u{2028}' || c == '\u{2029}' {
            push_escape(&mut escaped, 'u');
            push_char(&mut escaped, '2');
            push_char(&mut escaped, '0');
            push_char(&mut escaped, '2');
            if c == '\u{2028}' {
                push_char(&mut escaped, '8');
            } else {
                push_char(&mut escaped, '9');
            }
            proof {
                assert(escaped@ =~= before + template_char(c));
            }
        } else {
            push_char(&mut escaped, c);
            proof {
                assert(escaped@ =~= before + seq![c]);
            }
        }
        i = i + 1;
    }
    proof {
        assert(raw@.take(i as int) =~= raw@);
    }
    escaped
}

/// What the characters of a template literal stand for.
pub open spec fn cooked(raw: Seq<char>) -> Seq<char>
    decreases raw.len(),
{
    if raw.len() == 0 {
        seq![]
    } else if raw[0] != '\\' || raw.len() == 1 {
        seq![raw[0]] + cooked(raw.skip(1))
    } else if raw[1] == 'u' && raw.len() >= 6 {
        seq![
            if raw[5] == '8' {
                '\u{2028}'
            } else {
                '\u{2029}'
            },
        ] + cooked(raw.skip(6))
    } else {
        seq![
            if raw[1] == 'n' {
                '\n'
            } else if raw[1] == 't' {
                '\t'
            } else if raw[1] == 'b' {
                '\u{0008}'
            } else if raw[1] == 'f' {
                '\u{000C}'
            } else if raw[1] == 'v' {
                '\u{000B}'
            } else if raw[1] == 'r' {
                '\r'
            } else {
                raw[1]
            },
        ] + cooked(raw.skip(2))
    }
}

proof fn template_text_first(text: Seq<char>)
    requires
        text.len() > 0,
    ensures
        template_text(text) == template_char(text[0]) + template_text(text.skip(1)),
    decreases text.len(),
{
    if text.len() == 1 {
        assert(text.drop_last() =~= seq![]);
        assert(text.skip(1) =~= seq![]);
        assert(template_text(text) =~= template_char(text[0]) + template_text(text.skip(1)));
    } else {
        template_text_first(text.drop_last());
        assert(text.drop_last().skip(1) =~= text.skip(1).drop_last());
        assert(template_text(text) =~= template_char(text[0]) + template_text(text.skip(1)));
    }
}

/// A template literal stands for the text that it was written for.
pub proof fn template_text_reads_back(text: Seq<char>)
    ensures
        cooked(template_text(text)) == text,
    decreases text.len(),
{
    if text.len() > 0 {
        template_text_first(text);
        let head = template_char(text[0]);
        let rest = template_text(text.skip(1));
        let raw = head + rest;
        template_text_reads_back(text.skip(1));
        assert(raw.skip(head.len() as int) =~= rest);
        assert(raw[0] == head[0]);
        if head.len() > 1 {
            assert(raw[1] == head[1]);
        }
        if head.len() == 6 {
            assert(raw[5] == head[5]);
        }
        assert(seq![text[0]] + text.skip(1) =~= text);
    }
}

// ---------------------------------------------------------------------------
// The parts of a file
// ---------------------------------------------------------------------------

/// The call that makes a template.
pub open spec fn template_call_v(tmpl: TemplateV) -> ExprV {
    let literal = node_v(
        tmpl.span,
        KindV::Template {
            quasis: seq![
                QuasiV { raw: template_text(tmpl.content), cooked: Some(tmpl.content) },
            ],
            exprs: seq![],
        },
    );
    let callee = helper_v(tmpl.span, "template"@);
    if tmpl.is_svg || tmpl.use_import_node || tmpl.is_math_ml {
        call_v(
            tmpl.span,
            callee,
            seq![
                literal,
                bool_v(tmpl.span, tmpl.use_import_node),
                bool_v(tmpl.span, tmpl.is_svg),
                bool_v(tmpl.span, tmpl.is_math_ml),
            ],
        )
    } else {
        call_v(tmpl.span, callee, seq![literal])
    }
}

/// The variables of the templates.
pub open spec fn template_declarators(templates: Seq<TemplateV>) -> Seq<DeclaratorV> {
    Seq::new(
        templates.len(),
        |i: int|
            DeclaratorV {
                pattern: PatternV::Ident(template_name(i as nat)),
                init: Some(template_call_v(templates[i])),
            },
    )
}

fn template_call(tmpl: &TemplateInfo) -> (expr: Rc<Expr>)
    ensures
        expr@ == template_call_v(tmpl@),
{
    let raw = escape_string_for_template(tmpl.content.as_str());
    let mut quasis: Vec<Quasi> = Vec::new();
    quasis.push(Quasi { raw, cooked: Some(tmpl.content.clone()) });
    proof {
        assert(quasi_values(quasis@) =~= seq![
            QuasiV { raw: raw@, cooked: Some(tmpl.content@) },
        ]);
    }
    let exprs: Vec<Rc<Expr>> = Vec::new();
    let literal = template(tmpl.span, quasis, exprs);
    let callee = helper_ident_expr(tmpl.span, "template");
    if tmpl.is_svg || tmpl.use_import_node || tmpl.is_math_ml {
        call4(
            tmpl.span,
            callee,
            literal,
            boolean(tmpl.span, tmpl.use_import_node),
            boolean(tmpl.span, tmpl.is_svg),
            boolean(tmpl.span, tmpl.is_math_ml),
        )
    } else {
        call1(tmpl.span, callee, literal)
    }
}

/// The declaration of the variables of the templates.
fn declare_templates(templates: &Vec<TemplateInfo>) -> (stmt: Stmt)
    ensures
        stmt@ == (StmtV::Var {
            kind: VarKind::Var,
            declarators: template_declarators(template_values(templates@)),
        }),
{
    let ghost values = template_values(templates@);
    let mut declarators: Vec<Declarator> = Vec::new();
    let mut i: usize = 0;
    while i < templates.len()
        invariant
            i <= templates.len(),
            values == template_values(templates@),
            declarators@.len() == i,
            forall|k: int|
                0 <= k < i ==> (#[trigger] declarators@[k]).pattern@ == PatternV::Ident(
                    template_name(k as nat),
                ) && declarators@[k].init is Some && (declarators@[k].init->0)@
                    == template_call_v(values[k]),
        decreases templates.len() - i,
    {
        let init = template_call(&templates[i]);
        let pattern = Pattern::Ident(template_var_name(i));
        declarators.push(Declarator { pattern, init: Some(init) });
        i = i + 1;
    }
    proof {
        let want = template_declarators(values);
        assert forall|k: int| 0 <= k < want.len() implies #[trigger] declarator_values(
            declarators@,
        )[k] == want[k] by {
            assert(declarators@[k].init is Some);
        }
        assert(declarator_values(declarators@) =~= want);
    }
    Stmt::Var { kind: VarKind::Var, declarators }
}

/// `delegateEvents(["name", ..])`.
pub open spec fn delegation_v(events: Seq<Seq<char>>) -> ExprV {
    call_v(
        no_span(),
        helper_v(no_span(), "delegateEvents"@),
        seq![array_v(no_span(), events.map_values(|e: Seq<char>| str_v(no_span(), e)))],
    )
}

fn delegation(events: &Vec<String>) -> (expr: Rc<Expr>)
    ensures
        expr@ == delegation_v(texts(events@)),
{
    let ghost want = texts(events@).map_values(|e: Seq<char>| str_v(no_span(), e));
    let mut items: Vec<Rc<Expr>> = Vec::new();
    let mut i: usize = 0;
    while i < events.len()
        invariant
            i <= events.len(),
            want == texts(events@).map_values(|e: Seq<char>| str_v(no_span(), e)),
            expr_values(items@) == want.take(i as int),
        decreases events.len() - i,
    {
        items.push(string(nowhere(), events[i].as_str()));
        proof {
            assert(want.take(i + 1) =~= want.take(i as int).push(want[i as int]));
        }
        i = i + 1;
    }
    proof {
        assert(want.take(want.len() as int) =~= want);
    }
    call1(nowhere(), helper_ident_expr(nowhere(), "delegateEvents"), array(nowhere(), items))
}

/// Helpers of one module as imports.
pub open spec fn plain_imports(helpers: Seq<Seq<char>>, module: Seq<char>) -> Seq<ImportV> {
    helpers.map_values(|h: Seq<char>| (h, helper_name(h), module))
}

fn imports_of(helpers: &Vec<String>, module: &str) -> (imports: Vec<HelperImport>)
    ensures
        import_values(imports@) == plain_imports(texts(helpers@), module@),
{
    let mut imports: Vec<HelperImport> = Vec::new();
    let mut i: usize = 0;
    while i < helpers.len()
        invariant
            i <= helpers.len(),
            imports@.len() == i,
            forall|k: int|
                0 <= k < i ==> (#[trigger] imports@[k])@ == (
                    helpers@[k]@,
                    helper_name(helpers@[k]@),
                    module@,
                ),
        decreases helpers.len() - i,
    {
        imports.push(
            HelperImport {
                imported: helpers[i].clone(),
                local: helper_local_name(helpers[i].as_str()),
                module: copied(module),
            },
        );
        i = i + 1;
    }
    proof {
        assert(import_values(imports@) =~= plain_imports(texts(helpers@), module@));
    }
    imports
}

/// The imports of a file, in their order.
pub open spec fn file_imports(ctx: ContextV, options: TransformOptions) -> Seq<ImportV> {
    if options.generate is Dynamic {
        mixed_order(
            ctx.imports,
            match dom_module(options.renderers@) {
                Some(module) => module,
                None => options.module_name@,
            },
            options.module_name@,
        )
    } else {
        plain_order(
            plain_imports(ctx.helpers, options.module_name@),
            options.generate is Universal,
        )
    }
}

fn imports_in_order(context: &BlockContext, options: &TransformOptions) -> (imports: Vec<
    HelperImport,
>)
    ensures
        import_values(imports@) == file_imports(context@, *options),
{
    match options.generate {
        GenerateMode::Dynamic => {
            let module = match options.dynamic_dom_renderer_module_name() {
                Some(module) => module,
                None => options.module_name,
            };
            let list = context.helper_imports_vec();
            proof {
                assert(import_values(list@) =~= context@.imports);
            }
            order_mixed_helpers(list, module, options.module_name)
        },
        GenerateMode::Universal => order_helpers(
            imports_of(&context.helpers_vec(), options.module_name),
            true,
        ),
        _ => order_helpers(imports_of(&context.helpers_vec(), options.module_name), false),
    }
}

/// What a file gets around its body.
#[derive(Debug)]
pub struct FileParts {
    /// The helpers to import before the body, in their order.
    pub imports: Vec<HelperImport>,
    /// The declaration of the templates, behind the imports; each call in it is
    /// pure.
    pub templates: Option<Stmt>,
    /// The call that delegates events, behind the body.
    pub delegation: Option<Rc<Expr>>,
}

/// What a file gets around its body: nothing where nothing was transformed.
/// `taken` are the local names of the imports that the file has.
pub fn exit_program(
    context: &mut BlockContext,
    options: &TransformOptions,
    taken: Vec<String>,
) -> (parts: Option<FileParts>)
    ensures
        parts is None <==> old(context)@.helpers.len() == 0 && old(context)@.templates.len() == 0
            && old(context)@.delegates.len() == 0,
        final(context)@ == if old(context)@.delegates.len() > 0 {
            old(context)@.register("delegateEvents"@)
        } else {
            old(context)@
        },
        parts matches Some(parts) ==> import_values(parts.imports@) == new_imports(
            file_imports(final(context)@, *options),
            texts(taken@),
        ).0,
        parts matches Some(parts) ==> match parts.delegation {
            None => old(context)@.delegates.len() == 0,
            Some(call) => old(context)@.delegates.len() > 0 && call@ == delegation_v(
                old(context)@.delegates,
            ),
        },
        parts matches Some(parts) ==> match parts.templates {
            None => old(context)@.templates.len() == 0 || options.generate is Universal,
            Some(stmt) => old(context)@.templates.len() > 0 && !(options.generate is Universal)
                && stmt@ == (StmtV::Var {
                kind: VarKind::Var,
                declarators: template_declarators(old(context)@.templates),
            }),
        },
{
    let events = context.delegates_vec();
    let helpers = context.helpers_vec();
    proof {
        assert(texts(events@).len() == events@.len());
        assert(texts(helpers@).len() == helpers@.len());
    }
    if helpers.len() == 0 && context.templates_len() == 0 && events.len() == 0 {
        return None;
    }
    let delegation = if events.len() > 0 {
        context.register_helper("delegateEvents");
        Some(delegation(&events))
    } else {
        None
    };
    let imports = without_taken(imports_in_order(context, options), taken);
    let universal = match options.generate {
        GenerateMode::Universal => true,
        _ => false,
    };
    let templates = if universal || context.templates_len() == 0 {
        None
    } else {
        Some(declare_templates(context.templates_ref()))
    };
    Some(FileParts { imports, templates, delegation })
}

/// The contents of these templates, as they are checked.
pub open spec fn validation_contents(templates: Seq<TemplateV>) -> Seq<Seq<char>> {
    templates.map_values(|tmpl: TemplateV| tmpl.validation_content)
}

/// The markup of a file that is to be checked against what a browser makes of
/// it: that of each template, in order, where a check is asked for.
pub fn templates_to_validate(context: &BlockContext, options: &TransformOptions) -> (contents: Vec<
    String,
>)
    ensures
        texts(contents@) == if options.validate {
            validation_contents(context@.templates)
        } else {
            seq![]
        },
{
    let mut contents: Vec<String> = Vec::new();
    if options.validate {
        let templates = context.templates_ref();
        let ghost want = validation_contents(context@.templates);
        let mut i: usize = 0;
        while i < templates.len()
            invariant
                i <= templates@.len(),
                want == validation_contents(template_values(templates@)),
                contents@.len() == i,
                forall|k: int| 0 <= k < i ==> (#[trigger] contents@[k])@ == want[k],
            decreases templates@.len() - i,
        {
            contents.push(templates[i].validation_content.clone());
            i = i + 1;
        }
        proof {
            assert(texts(contents@) =~= want);
        }
    } else {
        proof {
            assert(texts(contents@) =~= seq![]);
        }
    }
    contents
}

} // verus!
