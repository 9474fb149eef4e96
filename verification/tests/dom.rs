use solid_jsx::ast::{
    AssignOp, BinaryOp, ComponentOutput, Condition, Declarator, Element, Expr, Facts, JsxAttr, JsxAttribute, JsxChild, JsxElement,
    JsxFragment, JsxText, JsxValue, Key, Kind, LogicalOp, Memo, Number, Pattern, Prop, PropKind, Quasi,
    Span, StaticTextValue, Stmt, UnaryOp, VarKind,
};
use solid_jsx::capture_class::ClassMember;
use solid_jsx::entry::{ElementName, Exit, SolidTransform, Surrounding};
use solid_jsx::file::{finish_program, FileStmt};
use solid_jsx::handlers::event_key;
use solid_jsx::ir::{TransformResult, Wanted};
use solid_jsx::options::{GenerateMode, RendererConfig, TransformOptions};
use solid_jsx::program::{exit_program, templates_to_validate};
use solid_jsx::resolve::{Attempt, Left, Resolution};
use solid_jsx::vocabulary::{PropAlias, Vocabulary};
use std::rc::Rc;

// ---------------------------------------------------------------------------
// Trees
// ---------------------------------------------------------------------------

const HERE: Span = Span { start: 0, end: 0 };

fn node(dynamic: bool, kind: Kind) -> Rc<Expr> {
    Rc::new(Expr { span: HERE, facts: Facts { dynamic, static_text: None, condition: None }, kind })
}

fn ident(name: &str) -> Rc<Expr> {
    node(false, Kind::Ident { name: name.to_string(), symbol: None })
}

fn call(name: &str) -> Rc<Expr> {
    node(true, Kind::Call { callee: ident(name), args: vec![], optional: false })
}

fn member(object: &str, property: &str) -> Rc<Expr> {
    node(
        true,
        Kind::Member { object: ident(object), property: property.to_string(), optional: false },
    )
}

fn string(text: &str) -> Rc<Expr> {
    Rc::new(Expr {
        span: HERE,
        facts: Facts {
            dynamic: false,
            static_text: Some(StaticTextValue::String(text.to_string())),
            condition: None,
        },
        kind: Kind::Str(text.to_string()),
    })
}

fn number(value: f64) -> Rc<Expr> {
    let number = || Number { bits: value.to_bits(), text: format!("{}", value) };
    Rc::new(Expr {
        span: HERE,
        facts: Facts {
            dynamic: false,
            static_text: Some(StaticTextValue::Number(number())),
            condition: None,
        },
        kind: Kind::Num(number()),
    })
}

fn arrow(body: Rc<Expr>) -> Rc<Expr> {
    node(
        false,
        Kind::Arrow { is_async: false, params: vec![], expression: true, body: vec![Stmt::Expr(body)] },
    )
}

fn prop(key: &str, value: Rc<Expr>) -> Prop {
    Prop::Named {
        span: HERE,
        kind: PropKind::Init,
        key: Key::Ident(key.to_string()),
        value,
        method: false,
        shorthand: false,
        computed: false,
    }
}

fn object(props: Vec<Prop>) -> Rc<Expr> {
    node(false, Kind::Object(props))
}

fn named(key: &str, value: JsxValue) -> JsxAttr {
    let event_name = if key.starts_with("on:") {
        key[3..].to_string()
    } else if key.starts_with("on") {
        key[2..].to_lowercase()
    } else {
        String::new()
    };
    JsxAttr::Named(JsxAttribute { span: HERE, key: key.to_string(), event_name, value })
}

fn attr(key: &str, expr: Rc<Expr>) -> JsxAttr {
    let dynamic = expr.facts.dynamic;
    named(key, JsxValue::Container { span: HERE, expr: Some(expr), remainder_dynamic: dynamic })
}

fn text_attr(key: &str, value: &str) -> JsxAttr {
    named(key, JsxValue::Str { value: value.to_string(), decoded: value.to_string() })
}

fn flag(key: &str) -> JsxAttr {
    named(key, JsxValue::Absent)
}

fn spread(argument: Rc<Expr>) -> JsxAttr {
    JsxAttr::Spread { span: HERE, argument }
}

fn element(tag: &str, attrs: Vec<JsxAttr>, children: Vec<JsxChild>) -> Rc<JsxElement> {
    Rc::new(JsxElement {
        span: HERE,
        tag: tag.to_string(),
        is_component: false,
        component: None,
        attrs,
        children,
    })
}

fn tag(tag: &str, attrs: Vec<JsxAttr>, children: Vec<JsxChild>) -> JsxChild {
    JsxChild::Element(element(tag, attrs, children))
}

fn text(content: &str) -> JsxChild {
    JsxChild::Text(JsxText {
        span: HERE,
        source: content.to_string(),
        content: content.to_string(),
        decoded: content.to_string(),
    })
}

fn hole(expr: Rc<Expr>) -> JsxChild {
    JsxChild::Container { span: HERE, expr: Some(expr) }
}

fn jsx(element: Rc<JsxElement>) -> Expr {
    Expr {
        span: HERE,
        facts: Facts { dynamic: false, static_text: None, condition: None },
        kind: Kind::JsxElement(element),
    }
}

fn fragment(children: Vec<JsxChild>) -> Expr {
    Expr {
        span: HERE,
        facts: Facts { dynamic: false, static_text: None, condition: None },
        kind: Kind::JsxFragment(Rc::new(JsxFragment { span: HERE, children, lowered: None })),
    }
}

fn words(list: &[&str]) -> Vec<String> {
    list.iter().map(|w| w.to_string()).collect()
}

fn vocabulary() -> Vocabulary {
    Vocabulary {
        aliases: vec![("className".to_string(), "class".to_string())],
        always_close: words(&["title", "style", "a", "strong"]),
        block_elements: words(&["div", "p", "ul", "li"]),
        inline_elements: words(&["a", "b", "em", "span", "strong"]),
        void_elements: words(&["br", "img", "input"]),
        svg_elements: words(&["svg", "path", "circle"]),
        child_properties: words(&["innerHTML", "textContent", "innerText", "children"]),
        properties: words(&["className", "value", "checked", "readOnly"]),
        prop_aliases: vec![PropAlias {
            name: "readonly".to_string(),
            tag: "INPUT".to_string(),
            alias: "readOnly".to_string(),
        }],
        svg_namespaces: vec![(
            "xlink".to_string(),
            "http://www.w3.org/1999/xlink".to_string(),
        )],
        delegated_events: words(&["click", "input"]),
    }
}

// ---------------------------------------------------------------------------
// Text of trees
// ---------------------------------------------------------------------------

fn list(items: Vec<String>) -> String {
    items.join(", ")
}

fn show_element(item: &Element) -> String {
    match item {
        Element::Expr(expr) => show(expr),
        Element::Spread(expr) => format!("...{}", show(expr)),
        Element::Hole => String::new(),
    }
}

fn show_pattern(pattern: &Pattern) -> String {
    match pattern {
        Pattern::Ident(name) => name.clone(),
        Pattern::Object(names) => format!("{{ {} }}", names.join(", ")),
        Pattern::Array(names) => format!("[{}]", names.join(", ")),
        Pattern::Opaque(id) => format!("#{}", id),
    }
}

fn show_key(key: &Key) -> String {
    match key {
        Key::Ident(name) => name.clone(),
        Key::Str(text) => format!("{:?}", text),
        Key::Num(number) => number.text.clone(),
        Key::Expr(expr) => show(expr),
    }
}

fn show_prop(prop: &Prop) -> String {
    match prop {
        Prop::Spread { argument, .. } => format!("...{}", show(argument)),
        Prop::Named { kind, key, value, computed, .. } => {
            let key = if *computed { format!("[{}]", show_key(key)) } else { show_key(key) };
            match kind {
                PropKind::Getter => {
                    let body = match &value.kind {
                        Kind::Function { body, .. } => show_body(body),
                        _ => show(value),
                    };
                    format!("get {}() {}", key, body)
                }
                PropKind::Setter => format!("set {}: {}", key, show(value)),
                PropKind::Init => format!("{}: {}", key, show(value)),
            }
        }
    }
}

fn show_body(body: &[Stmt]) -> String {
    format!("{{ {} }}", body.iter().map(show_stmt).collect::<Vec<_>>().join(" "))
}

fn show_stmt(stmt: &Stmt) -> String {
    match stmt {
        Stmt::Expr(expr) => format!("{};", show(expr)),
        Stmt::Return(None) => "return;".to_string(),
        Stmt::Return(Some(expr)) => format!("return {};", show(expr)),
        Stmt::Var { kind, declarators } => {
            let word = match kind {
                VarKind::Var => "var",
                VarKind::Let => "let",
                VarKind::Const => "const",
            };
            let items = declarators
                .iter()
                .map(|d| match &d.init {
                    None => show_pattern(&d.pattern),
                    Some(init) => format!("{} = {}", show_pattern(&d.pattern), show(init)),
                })
                .collect();
            format!("{} {};", word, list(items))
        }
        Stmt::Block(body) => show_body(body),
        Stmt::If { test, consequent, alternate } => {
            let tail = match alternate {
                None => String::new(),
                Some(alternate) => format!(" else {}", show_stmt(alternate)),
            };
            format!("if ({}) {}{}", show(test), show_stmt(consequent), tail)
        }
        Stmt::Function { name, body, .. } => {
            format!("function {}() {}", name.clone().unwrap_or_default(), show_body(body))
        }
        Stmt::Opaque(id) => format!("#{};", id),
    }
}

fn show(expr: &Expr) -> String {
    match &expr.kind {
        Kind::Ident { name, .. } => name.clone(),
        Kind::Str(text) => format!("{:?}", text),
        Kind::Num(number) => number.text.clone(),
        Kind::Bool(value) => format!("{}", value),
        Kind::Null => "null".to_string(),
        Kind::This => "this".to_string(),
        Kind::Template { quasis, exprs } => {
            let mut out = String::from("`");
            for (i, quasi) in quasis.iter().enumerate() {
                let Quasi { raw, .. } = quasi;
                out.push_str(raw);
                if i < exprs.len() {
                    out.push_str(&format!("${{{}}}", show(&exprs[i])));
                }
            }
            out.push('`');
            out
        }
        Kind::Array(items) => format!("[{}]", list(items.iter().map(show_element).collect())),
        Kind::Object(props) if props.is_empty() => "{}".to_string(),
        Kind::Object(props) => format!("{{ {} }}", list(props.iter().map(show_prop).collect())),
        Kind::Member { object, property, optional } => {
            format!("{}{}{}", show(object), if *optional { "?." } else { "." }, property)
        }
        Kind::Index { object, index, .. } => format!("{}[{}]", show(object), show(index)),
        Kind::PrivateMember { object, field } => format!("{}.#{}", show(object), field),
        Kind::Call { callee, args, .. } => {
            let callee = match &callee.kind {
                Kind::Arrow { .. } | Kind::Function { .. } => format!("({})", show(callee)),
                _ => show(callee),
            };
            format!("{}({})", callee, list(args.iter().map(show_element).collect()))
        }
        Kind::Arrow { params, expression, body, .. } => {
            let params = match params.as_slice() {
                [Pattern::Ident(name)] => name.clone(),
                _ => format!("({})", list(params.iter().map(show_pattern).collect())),
            };
            match body.first() {
                Some(Stmt::Expr(only)) if *expression => format!("{} => {}", params, show(only)),
                _ => format!("{} => {}", params, show_body(body)),
            }
        }
        Kind::Function { name, params, body, .. } => format!(
            "function {}({}) {}",
            name.clone().unwrap_or_default(),
            list(params.iter().map(show_pattern).collect()),
            show_body(body)
        ),
        Kind::Assign { op, target, value } => {
            let op = match op {
                AssignOp::Assign => "=".to_string(),
                AssignOp::Compound(id) => format!("#{}=", id),
            };
            format!("{} {} {}", show(target), op, show(value))
        }
        Kind::Unary { op, argument } => {
            let op = match op {
                UnaryOp::Plus => "+",
                UnaryOp::Minus => "-",
                UnaryOp::Not => "!",
                UnaryOp::BitNot => "~",
                UnaryOp::Typeof => "typeof ",
                UnaryOp::Void => "void ",
                UnaryOp::Delete => "delete ",
            };
            format!("{}{}", op, show(argument))
        }
        Kind::Binary { op, left, right } => {
            let op = match op {
                BinaryOp::StrictEquality => "===",
                BinaryOp::StrictInequality => "!==",
                BinaryOp::Addition => "+",
                _ => "?",
            };
            format!("{} {} {}", show(left), op, show(right))
        }
        Kind::Logical { op, left, right } => {
            let op = match op {
                LogicalOp::Or => "||",
                LogicalOp::And => "&&",
                LogicalOp::Coalesce => "??",
            };
            let first = show(left);
            let first = match left.kind {
                Kind::Logical { .. } => format!("({})", first),
                _ => first,
            };
            format!("{} {} {}", first, op, show(right))
        }
        Kind::Conditional { test, consequent, alternate } => {
            format!("{} ? {} : {}", show(test), show(consequent), show(alternate))
        }
        Kind::Sequence(items) => {
            format!("({})", list(items.iter().map(|item| show(item)).collect()))
        }
        Kind::Paren(inner) => format!("({})", show(inner)),
        Kind::Chain(inner) => show(inner),
        Kind::Typed { expr, .. } => show(expr),
        Kind::JsxElement(element) => format!("<{} />", element.tag),
        Kind::JsxFragment(_) => "<></>".to_string(),
        Kind::Hole(slot) => format!("@{}", slot),
        Kind::Opaque(id) => format!("#{}", id),
    }
}

// ---------------------------------------------------------------------------
// Runs
// ---------------------------------------------------------------------------

struct Outcome {
    code: String,
    templates: Vec<String>,
    helpers: Vec<String>,
    delegates: Vec<String>,
}

/// The steps that a result of the universal renderer lists.
fn show_result(result: &TransformResult) -> String {
    let mut parts: Vec<String> = Vec::new();
    for declaration in result.declarations.iter() {
        parts.push(format!("{} = {};", show_pattern(&declaration.pattern), show(&declaration.init)));
    }
    parts.extend(result.statements.iter().map(show_stmt));
    parts.extend(result.exprs.iter().map(|expr| format!("{};", show(expr))));
    for binding in result.dynamics.iter() {
        parts.push(format!("{}.{} <- {};", binding.elem, binding.key, show(&binding.value)));
    }
    parts.extend(result.post_exprs.iter().map(|expr| format!("{};", show(expr))));
    parts.join(" ")
}

fn run_with(expr: &Expr, options: &TransformOptions) -> Outcome {
    let vocabulary = vocabulary();
    let mut transform = SolidTransform::new(options, "");
    let code = match transform.exit_expression(expr, &vec![], &vocabulary) {
        Exit::Dom(expr) => show(&expr),
        Exit::Unchanged => "unchanged".to_string(),
        Exit::Universal(result) => show_result(&result),
        Exit::Refused => "refused".to_string(),
    };
    let context = &transform.context;
    Outcome {
        code,
        templates: context.templates_ref().iter().map(|t| t.content.clone()).collect(),
        helpers: context.helpers_vec(),
        delegates: context.delegates_vec(),
    }
}

fn run(expr: &Expr) -> Outcome {
    run_with(expr, &TransformOptions::solid_defaults())
}

#[test]
fn a_static_element_is_its_template() {
    let outcome = run(&jsx(element("div", vec![text_attr("class", "hello")], vec![text("world")])));
    assert_eq!(outcome.templates, vec!["<div class=hello>world"]);
    assert_eq!(outcome.code, "_tmpl$()");
    assert_eq!(outcome.helpers, vec!["template"]);
}

#[test]
fn a_dynamic_class_gets_an_effect() {
    let outcome = run(&jsx(element("div", vec![attr("class", call("style"))], vec![text("content")])));
    assert_eq!(outcome.templates, vec!["<div>content"]);
    assert_eq!(
        outcome.code,
        "(() => { var _el$ = _tmpl$(); _$effect(() => style(), (_v$, _$p) => { _$className(_el$, _v$, _$p); }); return _el$; })()"
    );
}

#[test]
fn a_dynamic_child_is_inserted() {
    let outcome = run(&jsx(element("div", vec![], vec![hole(call("count"))])));
    assert_eq!(outcome.templates, vec!["<div>"]);
    assert_eq!(
        outcome.code,
        "(() => { var _el$ = _tmpl$(); _$insert(_el$, count); return _el$; })()"
    );
}

#[test]
fn a_handler_is_delegated() {
    let outcome = run(&jsx(element("div", vec![attr("onClick", ident("handler"))], vec![text("click")])));
    assert_eq!(outcome.templates, vec!["<div>click"]);
    assert_eq!(
        outcome.code,
        "(() => { var _el$ = _tmpl$(); _$addEvent(_el$, \"click\", handler, true); return _el$; })()"
    );
    assert_eq!(outcome.delegates, vec!["click"]);
}

#[test]
fn a_function_handler_is_a_property() {
    let outcome = run(&jsx(element("div", vec![attr("onClick", arrow(call("go")))], vec![])));
    assert_eq!(
        outcome.code,
        "(() => { var _el$ = _tmpl$(); _el$.$$click = () => go(); return _el$; })()"
    );
}

#[test]
fn an_element_below_is_walked_to() {
    let inner = tag("span", vec![attr("class", call("style"))], vec![text("nested")]);
    let outcome = run(&jsx(element("div", vec![], vec![inner])));
    assert_eq!(outcome.templates, vec!["<div><span>nested"]);
    assert_eq!(
        outcome.code,
        "(() => { var _el$ = _tmpl$(), _el$2 = _el$.firstChild; _$effect(() => style(), (_v$, _$p) => { _$className(_el$2, _v$, _$p); }); return _el$; })()"
    );
}

#[test]
fn a_literal_style_goes_into_the_template() {
    let style = object(vec![prop("color", string("red")), prop("width", number(14.0))]);
    let outcome = run(&jsx(element("div", vec![attr("style", style)], vec![text("styled")])));
    assert_eq!(outcome.templates, vec!["<div style=color:red;width:14>styled"]);
    assert_eq!(outcome.code, "_tmpl$()");
}

#[test]
fn a_child_before_text_gets_a_marker() {
    let children = vec![hole(call("a")), text("b"), hole(call("c"))];
    let outcome = run(&jsx(element("div", vec![], children)));
    assert_eq!(outcome.templates, vec!["<div>b"]);
    assert_eq!(
        outcome.code,
        "(() => { var _el$ = _tmpl$(), _el$2 = _el$.firstChild; _$insert(_el$, a, _el$2); _$insert(_el$, c, null); return _el$; })()"
    );
}

#[test]
fn a_spread_needs_its_helper() {
    let outcome = run(&jsx(element("div", vec![spread(ident("props"))], vec![])));
    assert_eq!(
        outcome.code,
        "(() => { var _el$ = _tmpl$(); _$spread(_el$, props, false); return _el$; })()"
    );
}

#[test]
fn inner_html_is_set() {
    let outcome = run(&jsx(element("div", vec![attr("innerHTML", ident("html"))], vec![])));
    assert_eq!(
        outcome.code,
        "(() => { var _el$ = _tmpl$(); _el$.innerHTML = html; return _el$; })()"
    );
}

#[test]
fn a_fragment_is_an_array() {
    let children = vec![tag("p", vec![], vec![text("a")]), tag("p", vec![], vec![text("b")])];
    let outcome = run(&fragment(children));
    assert_eq!(outcome.templates, vec!["<p>a", "<p>b"]);
    assert_eq!(outcome.code, "[_tmpl$(), _tmpl$2()]");
}

#[test]
fn a_template_is_made_once() {
    let children = vec![tag("p", vec![], vec![text("a")]), tag("p", vec![], vec![text("a")])];
    let outcome = run(&fragment(children));
    assert_eq!(outcome.templates, vec!["<p>a"]);
    assert_eq!(outcome.code, "[_tmpl$(), _tmpl$()]");
}

#[test]
fn several_bindings_share_an_effect() {
    let attrs = vec![attr("id", call("a")), attr("title", call("b"))];
    let outcome = run(&jsx(element("div", attrs, vec![])));
    assert_eq!(
        outcome.code,
        "(() => { var _el$ = _tmpl$(); _$effect(() => { e: a(), t: b() }, ({ e, t }, _p$) => { e !== _p$?.e && _$setAttribute(_el$, \"id\", e); t !== _p$?.t && _$setAttribute(_el$, \"title\", t); }); return _el$; })()"
    );
}

#[test]
fn a_member_is_an_expression_that_may_change() {
    let outcome = run(&jsx(element("input", vec![attr("value", member("props", "value")), flag("disabled")], vec![])));
    assert_eq!(outcome.templates, vec!["<input disabled>"]);
    assert_eq!(
        outcome.code,
        "(() => { var _el$ = _tmpl$(); _$effect(() => props.value, _v$ => { _el$.value = _v$; }); return _el$; })()"
    );
}

#[test]
fn jsx_in_an_attribute_is_left_for_later() {
    let options = TransformOptions::solid_defaults();
    let vocabulary = vocabulary();
    let mut transform = SolidTransform::new(&options, "");
    let expr = jsx(element("b", vec![], vec![]));
    let plain = ElementName::Ident { is_component: false };
    let component = ElementName::Ident { is_component: true };
    let around = vec![Surrounding::Other, Surrounding::JsxExpression, Surrounding::Children(plain)];
    assert!(matches!(transform.exit_expression(&expr, &around, &vocabulary), Exit::Unchanged));
    let around = vec![Surrounding::JsxExpression, Surrounding::Attributes(component)];
    assert!(matches!(transform.exit_expression(&expr, &around, &vocabulary), Exit::Dom(_)));
    let around = vec![Surrounding::Other];
    assert!(matches!(transform.exit_expression(&expr, &around, &vocabulary), Exit::Dom(_)));
    let around = vec![Surrounding::JsxExpression, Surrounding::Children(ElementName::Member)];
    assert!(matches!(transform.exit_expression(&expr, &around, &vocabulary), Exit::Dom(_)));
    let around = vec![Surrounding::JsxExpression, Surrounding::Children(ElementName::Namespaced)];
    assert!(matches!(transform.exit_expression(&expr, &around, &vocabulary), Exit::Unchanged));
}

#[test]
fn renderers_do_not_mix_below_an_element() {
    let options = TransformOptions {
        generate: GenerateMode::Dynamic,
        renderers: vec![RendererConfig {
            name: "dom",
            module_name: "r-dom",
            elements: vec!["div"],
        }],
        ..TransformOptions::solid_defaults()
    };
    let below = run_with(&jsx(element("div", vec![], vec![tag("mesh", vec![], vec![])])), &options);
    assert_eq!(below.code, "refused");
    let alone = run_with(&jsx(element("mesh", vec![], vec![])), &options);
    assert_eq!(alone.code, r#"_el$ = _$createElement("mesh");"#);
    let dom = run_with(&jsx(element("div", vec![], vec![])), &options);
    assert_eq!(dom.code, "_tmpl$()");
    let transform = SolidTransform::new(&options, "");
    assert!(transform.context.templates_ref().is_empty());
}

#[test]
fn a_file_gets_its_imports_and_templates() {
    let options = TransformOptions::solid_defaults();
    let vocabulary = vocabulary();
    let mut transform = SolidTransform::new(&options, "");
    let expr = jsx(element("div", vec![attr("onClick", ident("go"))], vec![hole(call("count"))]));
    let _ = transform.exit_expression(&expr, &vec![], &vocabulary);
    let parts = exit_program(&mut transform.context, &options, vec![]).unwrap();
    let imports: Vec<String> = parts.imports.iter().map(|i| i.imported.clone()).collect();
    assert_eq!(imports, vec!["template", "delegateEvents", "insert", "addEvent"]);
    assert_eq!(show_stmt(&parts.templates.unwrap()), "var _tmpl$ = _$template(`<div>`);");
    assert_eq!(show(&parts.delegation.unwrap()), "_$delegateEvents([\"click\"])");
}

#[test]
fn a_file_without_jsx_gets_nothing() {
    let options = TransformOptions::solid_defaults();
    let mut transform = SolidTransform::new(&options, "");
    assert!(exit_program(&mut transform.context, &options, vec![]).is_none());
}

fn show_file(body: &[FileStmt]) -> Vec<String> {
    body.iter()
        .map(|stmt| match stmt {
            FileStmt::Plain(stmt) => show_stmt(stmt),
            FileStmt::Class { id, members } => {
                let members: Vec<String> = members
                    .iter()
                    .map(|member| match member {
                        ClassMember::Method(Some(body)) => show_body(body),
                        ClassMember::Method(None) => ";".to_string(),
                        ClassMember::Property(Some(value)) => show(value),
                        ClassMember::Property(None) => "-".to_string(),
                        ClassMember::Opaque(id) => format!("#{}", id),
                    })
                    .collect();
                format!("class #{} {}", id, members.join(" "))
            }
        })
        .collect()
}

#[test]
fn a_file_is_put_together() {
    let options = TransformOptions::solid_defaults();
    let vocabulary = vocabulary();
    let mut transform = SolidTransform::new(&options, "");
    let first = jsx(element("div", vec![attr("onClick", ident("go"))], vec![hole(call("count"))]));
    let first = match transform.leave_expression(&first, &vec![], &vocabulary) {
        Left::Resolved(Resolution::Done(expr)) => expr,
        _ => panic!("not put out"),
    };
    let second = jsx(element("p", vec![attr("onInput", ident("go"))], vec![]));
    let second = match transform.leave_expression(&second, &vec![], &vocabulary) {
        Left::Resolved(Resolution::Done(expr)) => expr,
        _ => panic!("not put out"),
    };
    let nested = node(false, Kind::Arrow {
        is_async: false,
        params: vec![],
        expression: false,
        body: vec![Stmt::Return(Some(second))],
    });
    let body = vec![
        FileStmt::Plain(Stmt::Var {
            kind: VarKind::Const,
            declarators: vec![Declarator { pattern: Pattern::Ident("a".to_string()), init: Some(first) }],
        }),
        FileStmt::Plain(Stmt::Expr(nested)),
        FileStmt::Class {
            id: 7,
            members: vec![
                ClassMember::Property(Some(node(false, Kind::This))),
                ClassMember::Method(None),
                ClassMember::Opaque(4),
            ],
        },
    ];
    let taken = vec!["_$insert".to_string()];
    let done = finish_program(transform.context, &options, taken, &vec![], &body);
    let imports: Vec<String> = done.imports.iter().map(|i| i.imported.clone()).collect();
    assert_eq!(imports, vec!["template", "delegateEvents", "addEvent"]);
    let shown = show_file(&done.body);
    assert_eq!(shown[0], "var _tmpl$ = _$template(`<div>`), _tmpl$2 = _$template(`<p>`);");
    assert_eq!(shown[1], "var _el$ = _tmpl$();");
    assert_eq!(
        shown[shown.len() - 3],
        "() => { var _el$2 = _tmpl$2(); _$addEvent(_el$2, \"input\", go, true); return _el$2; };"
    );
    assert_eq!(shown[shown.len() - 2], "class #7 this ; #4");
    assert_eq!(shown[shown.len() - 1], "_$delegateEvents([\"click\", \"input\"]);");
    assert!(shown[shown.len() - 4].starts_with("const a = _el$;"));
    assert!(done.rewritten.is_empty());
}

#[test]
fn this_is_bound_only_where_a_component_is_made() {
    let options = TransformOptions::solid_defaults();
    let made = |name: &str| {
        node(false, Kind::Call {
            callee: ident(name),
            args: vec![
                Element::Expr(ident("Comp")),
                Element::Expr(object(vec![prop("k", node(false, Kind::This))])),
            ],
            optional: false,
        })
    };
    let body = || {
        vec![FileStmt::Class {
            id: 1,
            members: vec![ClassMember::Method(Some(vec![Stmt::Return(Some(made(
                "_$createComponent",
            )))]))],
        }]
    };
    let mut with = SolidTransform::new(&options, "");
    with.context.register_helper("createComponent");
    let done = finish_program(with.context, &options, vec![], &vec![], &body());
    assert_eq!(
        show_file(&done.body),
        vec!["class #1 { const _self$ = this; return _$createComponent(Comp, { k: _self$ }); }"]
    );
    let without = SolidTransform::new(&options, "");
    let done = finish_program(without.context, &options, vec![], &vec![], &body());
    assert_eq!(
        show_file(&done.body),
        vec!["class #1 { return _$createComponent(Comp, { k: this }); }"]
    );
    assert!(done.imports.is_empty());
}

#[test]
fn leaving_an_expression_leaves_no_jsx() {
    let options = TransformOptions::solid_defaults();
    let vocabulary = vocabulary();
    let mut transform = SolidTransform::new(&options, "");
    let tree = jsx(element(
        "div",
        vec![attr("prop:a", Rc::new(jsx(element("i", vec![], vec![]))))],
        vec![],
    ));
    match transform.leave_expression(&tree, &vec![], &vocabulary) {
        Left::Resolved(Resolution::Done(expr)) => {
            assert_eq!(inside(&show(&expr)), "_el$.a = _tmpl$2();")
        }
        _ => panic!("not put out"),
    }
    let around = vec![Surrounding::JsxExpression, Surrounding::Children(ElementName::Namespaced)];
    assert!(matches!(
        transform.leave_expression(&tree, &around, &vocabulary),
        Left::Unchanged
    ));
    let plain = call("f");
    assert!(matches!(
        transform.leave_expression(&plain, &vec![], &vocabulary),
        Left::Unchanged
    ));
}

#[test]
fn a_capture_ending_names_no_event() {
    assert_eq!(event_key("onClickCapture"), "onClick");
    assert_eq!(event_key("onClick"), "onClick");
    assert_eq!(event_key("Capture"), "");
    assert_eq!(event_key("on:capture"), "on:capture");
}

// ---------------------------------------------------------------------------
// Attributes
// ---------------------------------------------------------------------------

fn code_of(attrs: Vec<JsxAttr>) -> String {
    let outcome = run(&jsx(element("div", attrs, vec![])));
    format!("{} | {}", outcome.templates.join(" "), inside(&outcome.code))
}

fn inside(code: &str) -> String {
    code.replace("(() => { var _el$ = _tmpl$(); ", "").replace(" return _el$; })()", "")
}

#[test]
fn keys_of_merged_properties_are_quoted_where_needed() {
    assert_eq!(
        code_of(vec![
            spread(ident("props")),
            attr("data-x", ident("a")),
            attr("default", ident("b")),
            attr("id", call("c")),
        ]),
        r#"<div> | _$spread(_el$, _$mergeProps(props, { "data-x": a, default: b, get id() { return c(); } }), false);"#
    );
}

#[test]
fn refs_are_assigned_or_called() {
    assert_eq!(code_of(vec![attr("ref", ident("r"))]), r#"<div> | var _ref$ = r; typeof _ref$ === "function" || Array.isArray(_ref$) ? _$ref(() => _ref$, _el$) : r = _el$;"#);
    assert_eq!(code_of(vec![attr("ref", arrow(call("f")))]), "<div> | _$ref(() => () => f(), _el$);");
    assert_eq!(code_of(vec![attr("ref", member("a", "b"))]), r#"<div> | var _ref$ = a.b; typeof _ref$ === "function" || Array.isArray(_ref$) ? _$ref(() => _ref$, _el$) : a.b = _el$;"#);
    assert_eq!(code_of(vec![attr("ref", call("f"))]), r#"<div> | var _ref$ = f(); (typeof _ref$ === "function" || Array.isArray(_ref$)) && _$ref(() => _ref$, _el$);"#);
}

#[test]
fn directives_are_used() {
    assert_eq!(code_of(vec![attr("use:focus", call("on"))]), "<div> | _$use(focus, _el$, () => on());");
    assert_eq!(code_of(vec![flag("use:focus")]), "<div> | _$use(focus, _el$, () => true);");
}

#[test]
fn namespaces_choose_the_setter() {
    assert_eq!(code_of(vec![attr("prop:value", call("v"))]), "<div> | _$effect(() => v(), _v$ => { _el$.value = _v$; });");
    assert_eq!(code_of(vec![attr("bool:hidden", call("v"))]), r#"<div> | _$effect(() => _$setBoolAttribute(_el$, "hidden", v()));"#);
    assert_eq!(code_of(vec![attr("bool:hidden", node(false, Kind::Bool(true)))]), "<div hidden> | _tmpl$()");
    assert_eq!(code_of(vec![attr("class:on", call("v"))]), r#"<div> | _$effect(() => !!v(), _v$ => { _el$.classList.toggle("on", _v$); });"#);
    assert_eq!(code_of(vec![attr("style:color", call("v"))]), r#"<div> | _$effect(() => v(), _v$ => { _$setStyleProperty(_el$, "color", _v$); });"#);
    assert_eq!(code_of(vec![attr("style:color", string("red"))]), r#"<div> | _$setStyleProperty(_el$, "color", "red");"#);
}

#[test]
fn events_are_listened_to() {
    assert_eq!(code_of(vec![attr("on:custom", ident("h"))]), r#"<div> | _$addEventListener(_el$, "custom", h);"#);
    assert_eq!(code_of(vec![attr("onScroll", ident("h"))]), r#"<div> | _$addEvent(_el$, "scroll", h);"#);
    assert_eq!(code_of(vec![attr("onScroll", arrow(call("f")))]), r#"<div> | _el$.addEventListener("scroll", () => f());"#);
    assert_eq!(
        code_of(vec![attr("onClick", node(false, Kind::Array(vec![
            Element::Expr(ident("h")),
            Element::Expr(ident("data")),
        ])))]),
        "<div> | _el$.$$click = h; _el$.$$clickData = data;"
    );
}

#[test]
fn classes_are_merged() {
    assert_eq!(code_of(vec![text_attr("class", "a"), attr("class", string("b"))]), r#"<div class="a b"> | _tmpl$()"#);
    assert_eq!(code_of(vec![text_attr("class", "a"), attr("class", call("b"))]), r#"<div> | _$effect(() => `a ${b() || ""}`, (_v$, _$p) => { _$className(_el$, _v$, _$p); });"#);
    assert_eq!(
        code_of(vec![attr("classList", object(vec![
            prop("a", node(false, Kind::Bool(true))),
            prop("b", call("on")),
        ]))]),
        r#"<div> | _el$.classList.toggle("a", true); _$effect(() => _el$.classList.toggle("b", !!on()));"#
    );
    assert_eq!(
        code_of(vec![attr("class", object(vec![
            prop("a", node(false, Kind::Bool(true))),
            prop("b", ident("on")),
        ]))]),
        r#"<div class=a> | _el$.classList.toggle("b", !!on);"#
    );
}

#[test]
fn styles_are_set() {
    assert_eq!(code_of(vec![attr("style", call("s"))]), "<div> | _$effect(() => s(), (_v$, _$p) => { _$style(_el$, _v$, _$p); });");
    assert_eq!(
        code_of(vec![attr("style", object(vec![prop("color", call("c")), prop("width", string("1px"))]))]),
        r#"<div style=width:1px> | _$effect(() => c(), _v$ => { _$setStyleProperty(_el$, "color", _v$); });"#
    );
    assert_eq!(code_of(vec![text_attr("style", "color: red; width: 1px")]), "<div style=color:red;width:1px> | _tmpl$()");
}

#[test]
fn values_of_attributes() {
    assert_eq!(code_of(vec![attr("id", ident("x"))]), r#"<div> | _$setAttribute(_el$, "id", x);"#);
    assert_eq!(code_of(vec![attr("id", number(3.0))]), "<div id=3> | _tmpl$()");
    assert_eq!(code_of(vec![text_attr("title", "two words")]), r#"<div title="two words"> | _tmpl$()"#);
    assert_eq!(code_of(vec![text_attr("title", "")]), "<div title> | _tmpl$()");
    assert_eq!(code_of(vec![flag("hidden")]), "<div hidden> | _tmpl$()");
    assert_eq!(code_of(vec![attr("textContent", call("t"))]), "<div>  | (() => { var _el$ = _tmpl$(), _el$2 = _el$.firstChild; _$effect(() => t(), _v$ => { _el$2.data = _v$; });");
    assert_eq!(code_of(vec![attr("children", call("t"))]), "<div> | _$insert(_el$, t);");
}

#[test]
fn custom_elements_know_their_owner() {
    let outcome = run(&jsx(element("my-el", vec![attr("a", call("v"))], vec![])));
    assert_eq!(format!("{:?} {}", outcome.templates, outcome.code), r#"["<my-el>"] (() => { var _el$ = _tmpl$(); _el$._$owner = _$getOwner(); _$effect(() => v(), _v$ => { _$setAttribute(_el$, "a", _v$); }); return _el$; })()"#);
}

#[test]
fn svg_parts_are_wrapped() {
    let outcome = run(&jsx(element("path", vec![attr("xlink:href", call("v"))], vec![])));
    assert_eq!(format!("{:?} {}", outcome.templates, outcome.code), r#"["<svg><path></svg>"] (() => { var _el$ = _tmpl$(); _$effect(() => v(), _v$ => { _$setAttributeNS(_el$, "http://www.w3.org/1999/xlink", "xlink:href", _v$); }); return _el$; })()"#);
}

#[test]
fn an_insert_between_texts_gets_a_comment() {
    let children = vec![text("a"), hole(call("b")), text("c")];
    let outcome = run(&jsx(element("div", vec![], children)));
    assert_eq!(format!("{:?} {}", outcome.templates, outcome.code), r#"["<div>a<!>c"] (() => { var _el$ = _tmpl$(), _el$2 = _el$.firstChild, _el$4 = _el$2.nextSibling, _el$3 = _el$4.nextSibling; _$insert(_el$, b, _el$4); return _el$; })()"#);
}

#[test]
fn hydration_walks_by_markers() {
    let options = TransformOptions { hydratable: true, ..TransformOptions::solid_defaults() };
    let children = vec![text("a"), hole(call("b")), tag("p", vec![attr("id", call("c"))], vec![])];
    let outcome = run_with(&jsx(element("div", vec![], children)), &options);
    assert_eq!(format!("{:?} {}", outcome.templates, outcome.code), r#"["<div>a<!$><!/><p>"] (() => { var _el$ = _$getNextElement(_tmpl$), _el$2 = _el$.firstChild, _el$4 = _el$2.nextSibling, [_el$5, _co$] = _$getNextMarker(_el$4.nextSibling), _el$3 = _el$5.nextSibling; _$insert(_el$, b, _el$5, _co$); _$effect(() => c(), _v$ => { _$setAttribute(_el$3, "id", _v$); }); return _el$; })()"#);
    let outcome = run_with(&jsx(element("head", vec![], vec![])), &options);
    assert_eq!(format!("{:?} {}", outcome.templates, outcome.code), "[] _$createComponent(_$NoHydration, {})");
}

#[test]
fn conditions_are_inserted_in_their_memoized_form() {
    let expr = Rc::new(Expr {
        span: HERE,
        facts: Facts {
            dynamic: true,
            static_text: None,
            condition: Some(Rc::new(Condition {
                inline: Some(Memo { expr: ident("inline"), steps: vec![] }),
                insert: Some(Memo { expr: ident("insert"), steps: vec![] }),
            })),
        },
        kind: Kind::Conditional { test: call("t"), consequent: call("a"), alternate: call("b") },
    });
    let outcome = run(&jsx(element("div", vec![], vec![hole(expr)])));
    assert_eq!(inside(&outcome.code), "_$insert(_el$, insert);");
}

#[test]
fn closing_tags_may_go() {
    let options = TransformOptions {
        omit_last_closing_tag: false,
        omit_nested_closing_tags: false,
        ..TransformOptions::solid_defaults()
    };
    let tree = jsx(element("div", vec![], vec![
        tag("section", vec![], vec![tag("p", vec![], vec![text("a")])]),
        tag("b", vec![], vec![text("c")]),
    ]));
    assert_eq!(run_with(&tree, &options).templates, vec!["<div><section><p>a</p></section><b>c</b></div>"]);
    assert_eq!(run(&tree).templates, vec!["<div><section><p>a</p></section><b>c"]);
    let options = TransformOptions { omit_nested_closing_tags: true, ..TransformOptions::solid_defaults() };
    assert_eq!(run_with(&tree, &options).templates, vec!["<div><section><p>a</section><b>c"]);
}

// ---------------------------------------------------------------------------
// The universal renderer
// ---------------------------------------------------------------------------

fn universal(attrs: Vec<JsxAttr>, children: Vec<JsxChild>) -> String {
    let options =
        TransformOptions { generate: GenerateMode::Universal, ..TransformOptions::solid_defaults() };
    run_with(&jsx(element("view", attrs, children)), &options).code
}

#[test]
fn nodes_are_created_and_inserted() {
    assert_eq!(
        universal(vec![], vec![text("a")]),
        r#"_el$ = _$createElement("view"); _$insertNode(_el$, _$createTextNode(`a`));"#
    );
    assert_eq!(
        universal(vec![], vec![tag("p", vec![], vec![]), text("b")]),
        r#"_el$ = _$createElement("view"); _el$2 = _$createElement("p"); _el$3 = _$createTextNode(`b`); _$insertNode(_el$, _el$2); _$insertNode(_el$, _el$3);"#
    );
    assert_eq!(
        universal(vec![], vec![hole(call("c"))]),
        r#"_el$ = _$createElement("view"); _$insert(_el$, c);"#
    );
    assert_eq!(
        universal(vec![], vec![text("a"), hole(call("c")), tag("p", vec![], vec![])]),
        r#"_el$ = _$createElement("view"); _el$2 = _$createTextNode(`a`); _el$3 = _$createElement("p"); _$insertNode(_el$, _el$2); _$insertNode(_el$, _el$3); _$insert(_el$, c, _el$3);"#
    );
}

#[test]
fn properties_are_set() {
    assert_eq!(
        universal(vec![text_attr("id", "a")], vec![]),
        r#"_el$ = _$createElement("view"); _$setProp(_el$, "id", "a");"#
    );
    assert_eq!(
        universal(vec![flag("on")], vec![]),
        r#"_el$ = _$createElement("view"); _$setProp(_el$, "on", true);"#
    );
    assert_eq!(
        universal(vec![attr("id", ident("x"))], vec![]),
        r#"_el$ = _$createElement("view"); _$setProp(_el$, "id", x);"#
    );
    assert_eq!(
        universal(vec![attr("id", call("x"))], vec![]),
        r#"_el$ = _$createElement("view"); _el$.id <- x();"#
    );
    assert_eq!(
        universal(vec![attr("ref", ident("r"))], vec![]),
        r#"_el$ = _$createElement("view"); var _ref$ = r; typeof _ref$ === "function" ? _$use(_ref$, _el$) : r = _el$;"#
    );
    assert_eq!(
        universal(vec![attr("use:focus", call("on"))], vec![]),
        r#"_el$ = _$createElement("view"); _$use(focus, _el$, () => on());"#
    );
    assert_eq!(
        universal(vec![attr("onClick", ident("go"))], vec![]),
        r#"_el$ = _$createElement("view"); _$setProp(_el$, "onClick", go);"#
    );
    assert_eq!(
        universal(vec![attr("children", call("t"))], vec![]),
        r#"_el$ = _$createElement("view"); _$insert(_el$, t);"#
    );
    assert_eq!(
        universal(vec![spread(ident("props")), attr("data-x", call("v"))], vec![]),
        r#"_el$ = _$createElement("view"); _$spread(_el$, _$mergeProps(props, { get ["data-x"]() { return v(); } }), false);"#
    );
}

#[test]
fn a_universal_fragment_of_one_child_is_that_child() {
    let options =
        TransformOptions { generate: GenerateMode::Universal, ..TransformOptions::solid_defaults() };
    assert_eq!(
        run_with(&fragment(vec![tag("p", vec![], vec![])]), &options).code,
        r#"_el$ = _$createElement("p");"#
    );
}

// ---------------------------------------------------------------------------
// Several expressions
// ---------------------------------------------------------------------------

#[test]
fn what_a_file_has_gathered_stays() {
    let options = TransformOptions::solid_defaults();
    let vocabulary = vocabulary();
    let mut transform = SolidTransform::new(&options, "");
    let trees = vec![
        jsx(element("div", vec![attr("onClick", ident("go"))], vec![hole(call("a"))])),
        jsx(element("p", vec![attr("id", call("b"))], vec![])),
        jsx(element("div", vec![attr("onInput", ident("go"))], vec![hole(call("c"))])),
    ];
    let mut helpers: Vec<String> = vec![];
    let mut templates: Vec<String> = vec![];
    let mut delegates: Vec<String> = vec![];
    for tree in &trees {
        let _ = transform.exit_expression(tree, &vec![], &vocabulary);
        let context = &transform.context;
        let contents: Vec<String> =
            context.templates_ref().iter().map(|t| t.content.clone()).collect();
        assert!(context.helpers_vec().starts_with(&helpers));
        assert!(context.delegates_vec().starts_with(&delegates));
        assert!(contents.starts_with(&templates));
        helpers = context.helpers_vec();
        delegates = context.delegates_vec();
        templates = contents;
    }
    assert_eq!(templates, vec!["<div>", "<p>"]);
    assert_eq!(delegates, vec!["click", "input"]);
    let mut once = helpers.clone();
    once.sort();
    once.dedup();
    assert_eq!(once.len(), helpers.len());
}

#[test]
fn a_template_begins_and_ends_with_its_tag() {
    let options = TransformOptions::solid_defaults();
    let vocabulary = vocabulary();
    let mut transform = SolidTransform::new(&options, "");
    for tree in vec![
        jsx(element("div", vec![text_attr("id", "a")], vec![tag("p", vec![], vec![text("b")])])),
        jsx(element("path", vec![], vec![])),
        jsx(element("br", vec![], vec![])),
    ] {
        let _ = transform.exit_expression(&tree, &vec![], &vocabulary);
    }
    let templates = transform.context.templates_ref();
    assert_eq!(templates[0].content, "<div id=a><p>b");
    assert_eq!(templates[0].validation_content, "<div><p>b</p></div>");
    assert_eq!(templates[1].content, "<svg><path></svg>");
    assert_eq!(templates[1].validation_content, "<svg><path></path></svg>");
    assert_eq!(templates[2].content, "<br>");
    assert_eq!(templates[2].validation_content, "<br>");
}

#[test]
fn jsx_that_was_left_is_put_out_in_order() {
    let options = TransformOptions::solid_defaults();
    let vocabulary = vocabulary();
    let mut transform = SolidTransform::new(&options, "");
    let inner = element("i", vec![attr("prop:deep", Rc::new(jsx(element("u", vec![], vec![]))))], vec![]);
    let tree = jsx(element(
        "div",
        vec![
            attr("prop:a", Rc::new(jsx(inner))),
            attr("prop:b", Rc::new(jsx(element("s", vec![attr("id", call("x"))], vec![])))),
        ],
        vec![],
    ));
    let first = match transform.exit_expression(&tree, &vec![], &vocabulary) {
        Exit::Dom(expr) => expr,
        _ => panic!("not put out"),
    };
    assert_eq!(
        inside(&show(&first)),
        "_el$.a = <i />; _el$.b = <s />;"
    );
    let shown = |resolution: Resolution| match resolution {
        Resolution::Done(expr) => format!("done {}", show(&expr)),
        Resolution::Refused(_) => "refused".to_string(),
        Resolution::Universal(_, _) => "universal".to_string(),
    };
    assert_eq!(
        shown(transform.resolve_deferred_jsx_in_expression(&first, &vocabulary)),
        r#"done (() => { var _el$ = _tmpl$(); _el$.a = (() => { var _el$2 = _tmpl$2(); _el$2.deep = _tmpl$3(); return _el$2; })(); _el$.b = (() => { var _el$4 = _tmpl$4(); _$effect(() => x(), _v$ => { _$setAttribute(_el$4, "id", _v$); }); return _el$4; })(); return _el$; })()"#
    );
    let templates: Vec<&str> =
        transform.context.templates_ref().iter().map(|t| t.content.as_str()).collect();
    assert_eq!(templates, vec!["<div>", "<i>", "<u>", "<s>"]);
    let plain = call("f");
    assert_eq!(shown(transform.resolve_deferred_jsx_in_expression(&plain, &vocabulary)), "done f()");
}

// ---------------------------------------------------------------------------
// Components
// ---------------------------------------------------------------------------

fn component(output: Option<ComponentOutput>) -> JsxChild {
    JsxChild::Element(Rc::new(JsxElement {
        span: Span { start: 5, end: 8 },
        tag: "Item".to_string(),
        is_component: true,
        component: output,
        attrs: vec![],
        children: vec![],
    }))
}

fn with_component(output: Option<ComponentOutput>) -> Expr {
    jsx(element(
        "div",
        vec![],
        vec![
            tag("p", vec![], vec![hole(call("a"))]),
            component(output),
            tag("i", vec![], vec![hole(call("b"))]),
        ],
    ))
}

/// Tries the tree, lowers its component to a fresh variable and a template, and
/// tries again; gives the variable, the code and the templates.
fn lowered_in_place(options: &TransformOptions) -> (String, String, Vec<String>) {
    let vocabulary = vocabulary();
    let transform = SolidTransform::new(options, "");
    let (mut asking, attempt) = transform.try_leave(&with_component(None), &vec![], &vocabulary);
    let start = match attempt {
        Attempt::Asks { wanted, span, start } => {
            assert_eq!(wanted, Wanted::Component);
            assert_eq!(span, Span { start: 5, end: 8 });
            start
        }
        Attempt::Done(_) => panic!("not asked for"),
    };
    let at = asking.context.steps_len();
    let name = asking.context.generate_uid("el$");
    asking.context.register_helper("createComponent");
    let steps = asking.context.steps_from(at);
    let output = ComponentOutput {
        exprs: vec![ident(&name)],
        has_hydratable_event: false,
        steps,
    };
    let back = SolidTransform { options, context: asking.context.rewind(start) };
    assert_eq!(back.context.steps_len(), 0);
    assert!(back.context.helpers_vec().is_empty());
    let (done, attempt) = back.try_leave(&with_component(Some(output)), &vec![], &vocabulary);
    let code = match attempt {
        Attempt::Done(Left::Resolved(Resolution::Done(expr))) => show(&expr),
        _ => panic!("not done"),
    };
    assert!(done.context.helpers_vec().contains(&"createComponent".to_string()));
    let templates = done.context.templates_ref().iter().map(|t| t.content.clone()).collect();
    (name, code, templates)
}

#[test]
fn a_component_is_lowered_where_it_is_reached() {
    let (name, code, templates) = lowered_in_place(&TransformOptions::solid_defaults());
    assert_eq!(name, "_el$3");
    assert!(code.contains("_el$2 = _el$.firstChild"), "{}", code);
    assert!(code.contains("_el$4 = _el$2.nextSibling"), "{}", code);
    assert!(code.contains("_$insert(_el$, _el$3, _el$4)"), "{}", code);
    assert_eq!(templates, vec!["<div><p></p><i>"]);
}

#[test]
fn a_hydratable_component_is_lowered_first() {
    let options = TransformOptions { hydratable: true, ..TransformOptions::solid_defaults() };
    let (name, code, _) = lowered_in_place(&options);
    assert_eq!(name, "_el$2");
    assert!(code.contains("_el$3 = _el$.firstChild"), "{}", code);
}

#[test]
fn a_file_is_taken_back_to_where_it_was() {
    let options = TransformOptions::solid_defaults();
    let vocabulary = vocabulary();
    let mut transform = SolidTransform::new(&options, "");
    let before = jsx(element("p", vec![attr("onClick", ident("go"))], vec![hole(call("a"))]));
    let _ = transform.exit_expression(&before, &vec![], &vocabulary);
    let helpers = transform.context.helpers_vec();
    let (mut asking, attempt) =
        transform.try_leave(&with_component(None), &vec![], &vocabulary);
    let start = match attempt {
        Attempt::Asks { start, .. } => start,
        Attempt::Done(_) => panic!("not asked for"),
    };
    asking.context.register_helper("mergeProps");
    asking.context.register_delegate("keydown");
    let back = asking.context.rewind(start);
    assert_eq!(back.steps_len(), start);
    assert_eq!(back.helpers_vec(), helpers);
    assert_eq!(back.delegates_vec(), vec!["click"]);
    assert_eq!(back.templates_ref().len(), 1);
    assert_eq!(back.asked_for(), None);
}

#[test]
fn an_attempt_without_components_is_done() {
    let options = TransformOptions::solid_defaults();
    let vocabulary = vocabulary();
    let transform = SolidTransform::new(&options, "");
    let tree = jsx(element("p", vec![], vec![text("a")]));
    match transform.try_leave(&tree, &vec![], &vocabulary) {
        (done, Attempt::Done(Left::Resolved(Resolution::Done(expr)))) => {
            assert_eq!(show(&expr), "_tmpl$()");
            assert_eq!(done.context.templates_ref().len(), 1);
        }
        _ => panic!("not done"),
    }
}

#[test]
fn jsx_that_is_put_out_twice_still_comes_to_an_end() {
    let options = TransformOptions::solid_defaults();
    let vocabulary = vocabulary();
    let tree = || {
        let inner = element("b", vec![attr("prop:x", Rc::new(jsx(element("u", vec![], vec![]))))], vec![]);
        jsx(element("select", vec![attr("value", Rc::new(jsx(inner)))], vec![]))
    };
    let mut transform = SolidTransform::new(&options, "");
    let code = match transform.leave_expression(&tree(), &vec![], &vocabulary) {
        Left::Resolved(Resolution::Done(expr)) => show(&expr),
        _ => panic!("not done"),
    };
    assert_eq!(code.matches("_tmpl$2()").count(), 2, "{}", code);
    assert_eq!(code.matches("_tmpl$3()").count(), 2, "{}", code);
    let templates: Vec<&str> =
        transform.context.templates_ref().iter().map(|t| t.content.as_str()).collect();
    assert_eq!(templates, vec!["<select>", "<b>", "<u>"]);
}

#[test]
fn templates_are_given_for_validation() {
    let vocabulary = vocabulary();
    let tree = jsx(element("div", vec![], vec![tag("p", vec![], vec![text("a")])]));
    let options = TransformOptions { validate: true, ..TransformOptions::solid_defaults() };
    let mut transform = SolidTransform::new(&options, "");
    assert!(templates_to_validate(&transform.context, &options).is_empty());
    let _ = transform.exit_expression(&tree, &vec![], &vocabulary);
    assert_eq!(templates_to_validate(&transform.context, &options), vec!["<div><p>a</p></div>"]);
    let quiet = TransformOptions { validate: false, ..TransformOptions::solid_defaults() };
    assert!(templates_to_validate(&transform.context, &quiet).is_empty());
}

// ---------------------------------------------------------------------------
// Conditions
// ---------------------------------------------------------------------------

/// `a ? b : c`, a condition whose forms are made where they are reached.
fn condition(inline: Option<Memo>, insert: Option<Memo>) -> Rc<Expr> {
    Rc::new(Expr {
        span: Span { start: 7, end: 9 },
        facts: Facts {
            dynamic: true,
            static_text: None,
            condition: Some(Rc::new(Condition { inline, insert })),
        },
        kind: Kind::Conditional { test: call("a"), consequent: call("b"), alternate: call("c") },
    })
}

/// Tries a tree, makes the form that it asks for with a fresh variable, and tries
/// again; gives what was wanted, the variable and the code.
fn memoized_in_place(
    tree: impl Fn(Option<Memo>, Option<Memo>) -> Expr,
    options: &TransformOptions,
) -> (Wanted, String, String) {
    let vocabulary = vocabulary();
    let transform = SolidTransform::new(options, "");
    let (mut asking, attempt) = transform.try_leave(&tree(None, None), &vec![], &vocabulary);
    let (wanted, start) = match attempt {
        Attempt::Asks { wanted, span, start } => {
            assert_eq!(span, Span { start: 7, end: 9 });
            (wanted, start)
        }
        Attempt::Done(_) => panic!("not asked for"),
    };
    let at = asking.context.steps_len();
    let name = asking.context.generate_uid("el$");
    asking.context.register_helper("memo");
    let memo = Memo { expr: ident(&name), steps: asking.context.steps_from(at) };
    let back = SolidTransform { options, context: asking.context.rewind(start) };
    let again = match wanted {
        Wanted::Inline => tree(Some(memo), None),
        _ => tree(None, Some(memo)),
    };
    let (done, attempt) = back.try_leave(&again, &vec![], &vocabulary);
    assert!(done.context.helpers_vec().contains(&"memo".to_string()));
    match attempt {
        Attempt::Done(Left::Resolved(Resolution::Done(expr))) => (wanted, name, show(&expr)),
        _ => panic!("not done"),
    }
}

#[test]
fn a_condition_is_memoized_where_it_is_inserted() {
    let options = TransformOptions::solid_defaults();
    let tree = |inline, insert| {
        jsx(element(
            "div",
            vec![],
            vec![tag("p", vec![], vec![hole(call("x"))]), hole(condition(inline, insert))],
        ))
    };
    let (wanted, name, code) = memoized_in_place(tree, &options);
    assert_eq!(wanted, Wanted::Insert);
    assert_eq!(name, "_el$3");
    assert!(code.contains("_$insert(_el$, _el$3, null)"), "{}", code);
}

#[test]
fn a_condition_in_a_fragment_stands_in_place() {
    let options = TransformOptions::solid_defaults();
    let tree = |inline, insert| {
        fragment(vec![
            tag("p", vec![attr("id", call("x"))], vec![]),
            hole(condition(inline, insert)),
        ])
    };
    let (wanted, name, code) = memoized_in_place(tree, &options);
    assert_eq!(wanted, Wanted::Inline);
    assert_eq!(name, "_el$2");
    assert!(code.contains("() => _el$2"), "{}", code);
}

#[test]
fn conditions_are_not_asked_for_where_they_are_not_wrapped() {
    let options = TransformOptions {
        wrap_conditionals: false,
        ..TransformOptions::solid_defaults()
    };
    let vocabulary = vocabulary();
    let transform = SolidTransform::new(&options, "");
    let tree = jsx(element("div", vec![], vec![hole(condition(None, None))]));
    match transform.try_leave(&tree, &vec![], &vocabulary) {
        (done, Attempt::Done(Left::Resolved(Resolution::Done(expr)))) => {
            assert!(show(&expr).contains("_$insert(_el$, () => a() ? b() : c())"), "{}", show(&expr));
            assert!(!done.context.helpers_vec().contains(&"memo".to_string()));
        }
        _ => panic!("not done"),
    }
}
