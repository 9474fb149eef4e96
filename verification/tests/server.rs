use solid_jsx::ast::{
    Element, Expr, Facts, JsxAttr, JsxAttribute, JsxChild, JsxElement, JsxText, JsxValue, Key, Kind,
    LogicalOp, Prop, PropKind, Span, Stmt,
};
use solid_jsx::escape::{wrap_escape_expr, wrap_escape_text_with_space_fallback};
use solid_jsx::options::{GenerateMode, TransformOptions};
use solid_jsx::ssr::{Part, Request, SsrContext, SsrResult};
use solid_jsx::ssr_attribute::strip_reserved_namespace_prefix;
use solid_jsx::ssr_element::{transform_component_child, transform_element};
use solid_jsx::vocabulary::Vocabulary;
use std::rc::Rc;

const HERE: Span = Span { start: 0, end: 0 };

fn node(dynamic: bool, kind: Kind) -> Rc<Expr> {
    Rc::new(Expr { span: HERE, facts: Facts { dynamic, static_text: None, condition: None }, kind })
}

fn ident(name: &str) -> Rc<Expr> {
    node(false, Kind::Ident { name: name.to_string(), symbol: None })
}

fn string(text: &str) -> Rc<Expr> {
    node(false, Kind::Str(text.to_string()))
}

fn call(name: &str) -> Rc<Expr> {
    node(true, Kind::Call { callee: ident(name), args: vec![], optional: false })
}

fn attr(key: &str, expr: Rc<Expr>) -> JsxAttr {
    JsxAttr::Named(JsxAttribute {
        span: HERE,
        key: key.to_string(),
        event_name: String::new(),
        value: JsxValue::Container { span: HERE, expr: Some(expr), remainder_dynamic: true },
    })
}

fn text_attr(key: &str, value: &str) -> JsxAttr {
    JsxAttr::Named(JsxAttribute {
        span: HERE,
        key: key.to_string(),
        event_name: String::new(),
        value: JsxValue::Str { value: value.to_string(), decoded: value.to_string() },
    })
}

fn element(tag: &str, attrs: Vec<JsxAttr>, children: Vec<JsxChild>) -> Rc<JsxElement> {
    Rc::new(JsxElement {
        span: HERE,
        tag: tag.to_string(),
        is_component: false,
        component: None,
        attrs,
        children,
    })
}

fn text(content: &str) -> JsxChild {
    JsxChild::Text(JsxText {
        span: HERE,
        source: content.to_string(),
        content: content.to_string(),
        decoded: content.to_string(),
    })
}

fn hole(expr: Rc<Expr>) -> JsxChild {
    JsxChild::Container { span: HERE, expr: Some(expr) }
}

fn words(list: &[&str]) -> Vec<String> {
    list.iter().map(|w| w.to_string()).collect()
}

fn vocabulary() -> Vocabulary {
    Vocabulary {
        aliases: vec![("className".to_string(), "class".to_string())],
        void_elements: words(&["br", "input"]),
        svg_elements: words(&["svg", "path"]),
        child_properties: words(&["innerHTML", "textContent", "innerText", "children"]),
        ..Vocabulary::default()
    }
}

fn show_prop(prop: &Prop) -> String {
    match prop {
        Prop::Spread { argument, .. } => format!("...{}", show(argument)),
        Prop::Named { kind, key, value, .. } => {
            let key = match key {
                Key::Ident(name) => name.clone(),
                Key::Str(text) => format!("{:?}", text),
                _ => "?".to_string(),
            };
            match kind {
                PropKind::Getter => format!("get {}() {}", key, show(value)),
                _ => format!("{}: {}", key, show(value)),
            }
        }
    }
}

fn show(expr: &Expr) -> String {
    match &expr.kind {
        Kind::Ident { name, .. } => name.clone(),
        Kind::Str(text) => format!("{:?}", text),
        Kind::Num(number) => number.text.clone(),
        Kind::Bool(value) => format!("{}", value),
        Kind::Null => "null".to_string(),
        Kind::Call { callee, args, .. } => {
            let args: Vec<String> = args
                .iter()
                .map(|a| match a {
                    Element::Expr(expr) => show(expr),
                    Element::Spread(expr) => format!("...{}", show(expr)),
                    Element::Hole => String::new(),
                })
                .collect();
            format!("{}({})", show(callee), args.join(", "))
        }
        Kind::Member { object, property, .. } => format!("{}.{}", show(object), property),
        Kind::Logical { op, left, right } => {
            let op = match op {
                LogicalOp::Or => "||",
                LogicalOp::And => "&&",
                LogicalOp::Coalesce => "??",
            };
            format!("{} {} {}", show(left), op, show(right))
        }
        Kind::Conditional { test, consequent, alternate } => {
            format!("{} ? {} : {}", show(test), show(consequent), show(alternate))
        }
        Kind::Arrow { body, expression, .. } => match body.first() {
            Some(Stmt::Expr(only)) if *expression => format!("() => {}", show(only)),
            _ => "() => {..}".to_string(),
        },
        Kind::Function { body, .. } => match body.first() {
            Some(Stmt::Return(Some(only))) => format!("{{ return {}; }}", show(only)),
            _ => "{..}".to_string(),
        },
        Kind::Object(props) => {
            format!("{{ {} }}", props.iter().map(show_prop).collect::<Vec<_>>().join(", "))
        }
        Kind::Array(items) => {
            let items: Vec<String> = items
                .iter()
                .map(|a| match a {
                    Element::Expr(expr) => show(expr),
                    _ => "?".to_string(),
                })
                .collect();
            format!("[{}]", items.join(", "))
        }
        Kind::Template { quasis, exprs } => {
            let mut out = String::from("`");
            for (i, quasi) in quasis.iter().enumerate() {
                out.push_str(&quasi.raw);
                if i < exprs.len() {
                    out.push_str(&format!("${{{}}}", show(&exprs[i])));
                }
            }
            out.push('`');
            out
        }
        Kind::Paren(inner) => format!("({})", show(inner)),
        Kind::Hole(slot) => format!("@{}", slot),
        _ => "?".to_string(),
    }
}

fn show_result(result: &SsrResult, context: &SsrContext) -> String {
    if let Some(first) = result.exprs.first() {
        return show(first);
    }
    let mut pieces = vec![String::new()];
    let mut values = vec![];
    for part in &result.parts {
        match part {
            Part::Static(text) => pieces.last_mut().unwrap().push_str(text),
            Part::Piece(text) => pieces.push(text.clone()),
            Part::Dynamic(expr) => {
                values.push(show_value(expr, context));
                pieces.push(String::new());
            }
            Part::Value(expr) => values.push(show_value(expr, context)),
            _ => {}
        }
    }
    let mut out = String::new();
    for (i, piece) in pieces.iter().enumerate() {
        out.push_str(piece);
        if i < values.len() {
            out.push_str(&format!("${{{}}}", values[i]));
        }
    }
    out
}

fn show_value(expr: &Expr, context: &SsrContext) -> String {
    match &expr.kind {
        Kind::Hole(slot) => match &context.requests[*slot] {
            Request::Hoist { expr, .. } => show(expr),
            _ => show(expr),
        },
        _ => show(expr),
    }
}

fn helpers(context: &SsrContext) -> Vec<String> {
    context
        .requests
        .iter()
        .filter_map(|r| match r {
            Request::Helper(name) => Some(name.clone()),
            _ => None,
        })
        .collect()
}

fn run(element: &JsxElement) -> String {
    let options = TransformOptions {
        generate: GenerateMode::Ssr,
        ..TransformOptions::solid_defaults()
    };
    let mut context = SsrContext::new(false, "");
    let result = transform_element(element, true, &mut context, &options, &vocabulary());
    show_result(&result, &context)
}

#[test]
fn a_static_element_is_written_out() {
    let tree = element("div", vec![text_attr("class", "hello")], vec![text("world")]);
    assert_eq!(run(&tree), "<div class=\"hello\">world</div>");
    assert_eq!(run(&element("br", vec![], vec![])), "<br>");
}

#[test]
fn a_dynamic_child_is_escaped() {
    let tree = element("div", vec![], vec![hole(call("count"))]);
    assert_eq!(run(&tree), "<div>${() => _$escape(count())}</div>");
}

#[test]
fn a_dynamic_class_is_escaped_as_an_attribute() {
    let tree = element("div", vec![attr("class", call("style"))], vec![text("content")]);
    assert_eq!(run(&tree), "<div class=\"${() => _$ssrClassName(style())}\">content</div>");
}

#[test]
fn a_dynamic_attribute_is_written_by_a_helper() {
    let options = TransformOptions {
        generate: GenerateMode::Ssr,
        ..TransformOptions::solid_defaults()
    };
    let parts = |key: &str| {
        let tree = element("div", vec![attr(key, call("a"))], vec![]);
        let mut context = SsrContext::new(false, "");
        let result = transform_element(&tree, true, &mut context, &options, &vocabulary());
        let mut shown = vec![];
        for part in &result.parts {
            match part {
                Part::Static(text) => shown.push(text.clone()),
                Part::Piece(text) => shown.push(format!("/{}", text)),
                Part::Dynamic(expr) | Part::Value(expr) => shown.push(show_value(expr, &context)),
                _ => {}
            }
        }
        shown
    };
    let call = |key: &str| format!("() => _$ssrAttribute(\"{}\", _$escape(a(), true))", key);
    assert_eq!(parts("id"), vec!["<div".to_string(), call("id"), ">".to_string(), "</div>".to_string()]);
    assert_eq!(
        parts("value"),
        vec!["<div".to_string(), call("value"), "/".to_string(), ">".to_string(), "</div>".to_string()]
    );
}

#[test]
fn handlers_are_left_out() {
    let tree = element("div", vec![attr("onClick", ident("go")), attr("ref", ident("r"))], vec![]);
    assert_eq!(run(&tree), "<div></div>");
}

#[test]
fn a_spread_makes_an_element_at_run_time() {
    let tree = element(
        "div",
        vec![JsxAttr::Spread { span: HERE, argument: ident("props") }],
        vec![text("a")],
    );
    assert_eq!(run(&tree), "_$ssrElement(\"div\", props, \"a\", false)");
}

#[test]
fn inner_html_is_not_escaped() {
    let tree = element("div", vec![attr("innerHTML", ident("html"))], vec![]);
    assert_eq!(run(&tree), "<div>${html}</div>");
}

#[test]
fn escaping_goes_into_branches() {
    let mut context = SsrContext::new(false, "");
    let choice = node(true, Kind::Conditional {
        test: ident("t"),
        consequent: string("<a>"),
        alternate: call("f"),
    });
    let escaped = wrap_escape_expr(&choice, false, &mut context);
    assert_eq!(show(&escaped), "t ? \"<a>\" : _$escape(f())");
    let spaced = wrap_escape_text_with_space_fallback(&call("f"), &mut context);
    assert_eq!(show(&spaced), "_$escape(f()) || \" \"");
    assert_eq!(helpers(&context)[0], "escape");
}

#[test]
fn namespaces_that_are_reserved_are_dropped() {
    assert_eq!(strip_reserved_namespace_prefix("prop:title"), "title");
    assert_eq!(strip_reserved_namespace_prefix("xlink:href"), "xlink:href");
}

#[test]
fn requests_keep_their_numbers() {
    let options = TransformOptions {
        generate: GenerateMode::Ssr,
        ..TransformOptions::solid_defaults()
    };
    let mut context = SsrContext::new(false, "");
    let first = element("p", vec![], vec![hole(call("a"))]);
    let result = transform_element(&first, true, &mut context, &options, &vocabulary());
    let count = context.requests.len();
    assert_eq!(show_result(&result, &context), "<p>${() => _$escape(a())}</p>");
    let second = element("p", vec![attr("id", call("b"))], vec![hole(call("c"))]);
    transform_element(&second, true, &mut context, &options, &vocabulary());
    assert!(context.requests.len() > count);
    assert_eq!(show_result(&result, &context), "<p>${() => _$escape(a())}</p>");
}

#[test]
fn hydratable_elements_carry_a_key_and_markers() {
    let options = TransformOptions {
        generate: GenerateMode::Ssr,
        hydratable: true,
        ..TransformOptions::solid_defaults()
    };
    let mut context = SsrContext::new(true, "");
    let tree = element("p", vec![], vec![text("a"), hole(call("b"))]);
    let result = transform_element(&tree, true, &mut context, &options, &vocabulary());
    assert_eq!(
        show_result(&result, &context),
        "<p${_$ssrHydrationKey()}>a<!--$-->${() => _$escape(b())}<!--/--></p>"
    );
    assert_eq!(helpers(&context), vec!["ssrHydrationKey", "escape"]);
}

#[test]
fn a_child_of_a_component_is_rendered_or_made() {
    let options = TransformOptions {
        generate: GenerateMode::Ssr,
        ..TransformOptions::solid_defaults()
    };
    let mut context = SsrContext::new(false, "");
    let component = JsxChild::Element(Rc::new(JsxElement {
        span: HERE,
        tag: "Item".to_string(),
        is_component: true,
        component: None,
        attrs: vec![],
        children: vec![],
    }));
    let made = transform_component_child(&component, &mut context, &options, &vocabulary()).unwrap();
    assert_eq!(show_result(&made, &context), "_$createComponent(Item, {  })");
    assert_eq!(helpers(&context), vec!["createComponent", "escape"]);
    let native = JsxChild::Element(element("b", vec![], vec![text("x")]));
    let made = transform_component_child(&native, &mut context, &options, &vocabulary()).unwrap();
    assert_eq!(show_result(&made, &context), "<b>x</b>");
    assert!(transform_component_child(&text("x"), &mut context, &options, &vocabulary()).is_none());
}

#[test]
fn a_component_is_asked_for_where_it_stands() {
    let options = TransformOptions {
        generate: GenerateMode::Ssr,
        ..TransformOptions::solid_defaults()
    };
    let mut context = SsrContext::new(false, "");
    let component = JsxChild::Element(Rc::new(JsxElement {
        span: Span { start: 3, end: 9 },
        tag: "Item".to_string(),
        is_component: true,
        component: None,
        attrs: vec![],
        children: vec![],
    }));
    let tree = element("p", vec![], vec![hole(call("a")), component, hole(call("b"))]);
    let _ = transform_element(&tree, true, &mut context, &options, &vocabulary());
    let spans: Vec<Span> = context
        .requests
        .iter()
        .filter_map(|r| match r {
            Request::Component(asked) => Some(asked.span),
            _ => None,
        })
        .collect();
    assert_eq!(spans, vec![Span { start: 3, end: 9 }]);
}
