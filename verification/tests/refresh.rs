use solid_jsx::ast::Span;
use solid_jsx::refresh_extract::{
    build_jsx_member_name, build_props_member, extract_jsx_expressions, ref_callback, Extraction,
};
use solid_jsx::refresh_names::{
    collect_top_level_names, generate_unique_name, get_descriptive_name_from_statement,
    is_component_ish_name, is_component_name_pattern, should_skip_jsx, statement_may_contain_jsx,
    Comment,
};
use solid_jsx::refresh_tree::{
    Arg, Attr, AttrName, AttrValue, Child, Class, Declaration, Declarator, Exported, Expr, Form,
    Function, Jsx, MemberName, Name, NameObject, Params, Part, Pattern, Stmt, Variables,
};
use solid_jsx::refresh_walk::transform_all_jsx;
use std::rc::Rc;

fn ident(name: &str) -> Rc<Expr> {
    Rc::new(Expr::Ident(name.to_string()))
}

fn named(name: &str, value: AttrValue) -> Attr {
    Attr::Named { name: AttrName::Ident(name.to_string()), value }
}

fn held(name: &str, expr: Rc<Expr>) -> Attr {
    named(name, AttrValue::Container(Some(expr)))
}

fn element(start: u32, name: Name, attrs: Vec<Attr>, children: Vec<Child>) -> Rc<Jsx> {
    Rc::new(Jsx::Element { start, name, closing: None, attrs, children })
}

fn plain(tag: &str) -> Name {
    Name::Plain(tag.to_string())
}

fn variable(name: &str, init: Rc<Expr>) -> Rc<Stmt> {
    Rc::new(Stmt::Variables(variables(name, init)))
}

fn variables(name: &str, init: Rc<Expr>) -> Variables {
    Variables {
        form: Form::Plain,
        declarators: vec![Declarator {
            pattern: Pattern::Ident(name.to_string()),
            init: Some(init),
        }],
    }
}

fn show_member(member: &MemberName) -> String {
    let object = match &member.object {
        NameObject::Ident(name) => name.clone(),
        NameObject::Member(inner) => show_member(inner),
        NameObject::This => "this".to_string(),
    };
    format!("{}.{}", object, member.property)
}

fn show_name(name: &Name) -> String {
    match name {
        Name::Plain(text) | Name::Reference(text) => text.clone(),
        Name::Member(member) => show_member(member),
        Name::Opaque(id) => format!("#{}", id),
    }
}

fn show_attr(attr: &Attr) -> String {
    match attr {
        Attr::Spread(expr) => format!("{{...{}}}", show(expr)),
        Attr::Named { name, value } => {
            let name = match name {
                AttrName::Ident(name) => name.clone(),
                AttrName::Namespaced { namespace, name } => format!("{}:{}", namespace, name),
            };
            match value {
                AttrValue::Absent => name,
                AttrValue::Text(id) => format!("{}=\"{}\"", name, id),
                AttrValue::Container(None) => format!("{}={{}}", name),
                AttrValue::Container(Some(expr)) => format!("{}={{{}}}", name, show(expr)),
                AttrValue::Jsx(jsx) => format!("{}={}", name, show_jsx(jsx)),
            }
        }
    }
}

fn show_child(child: &Child) -> String {
    match child {
        Child::Text(id) => format!("{}", id),
        Child::Jsx(jsx) => show_jsx(jsx),
        Child::Container(None) => "{}".to_string(),
        Child::Container(Some(expr)) => format!("{{{}}}", show(expr)),
        Child::Spread(expr) => format!("{{...{}}}", show(expr)),
    }
}

fn show_jsx(jsx: &Jsx) -> String {
    match jsx {
        Jsx::Element { name, closing, attrs, children, .. } => {
            let mut out = format!("<{}", show_name(name));
            for attr in attrs {
                out.push(' ');
                out.push_str(&show_attr(attr));
            }
            out.push('>');
            for child in children {
                out.push_str(&show_child(child));
            }
            if let Some(closing) = closing {
                out.push_str(&format!("</{}>", show_name(closing)));
            }
            out
        }
        Jsx::Fragment { children, .. } => {
            format!("<>{}</>", children.iter().map(show_child).collect::<String>())
        }
    }
}

fn show_body(body: &[Rc<Stmt>]) -> String {
    format!("{{ {} }}", body.iter().map(|s| show_stmt(s)).collect::<Vec<_>>().join(" "))
}

fn show(expr: &Expr) -> String {
    match expr {
        Expr::Jsx(jsx) => show_jsx(jsx),
        Expr::Ident(name) => name.clone(),
        Expr::Text(text) => format!("{:?}", text),
        Expr::This => "this".to_string(),
        Expr::Member { object, property } => format!("{}.{}", show(object), property),
        Expr::Typeof(inner) => format!("typeof {}", show(inner)),
        Expr::StrictEquality { left, right } => format!("{} === {}", show(left), show(right)),
        Expr::Call { callee, args, .. } => {
            let args: Vec<String> = args
                .iter()
                .map(|a| match a {
                    Arg::Expr(expr) => show(expr),
                    Arg::Spread(expr) => format!("...{}", show(expr)),
                })
                .collect();
            format!("{}({})", show(callee), args.join(", "))
        }
        Expr::Arrow { params, expression, body } => {
            let params = match params {
                Params::One(name) => name.clone(),
                Params::Given { id, parts } => show_node(*id, parts),
            };
            match &*body[0].clone() {
                Stmt::Expr(only) if *expression => format!("({}) => {}", params, show(only)),
                _ => format!("({}) => {}", params, show_body(body)),
            }
        }
        Expr::Function(function) => show_function(function),
        Expr::Conditional { test, consequent, alternate } => {
            format!("{} ? {} : {}", show(test), show(consequent), show(alternate))
        }
        Expr::Logical { left, right, .. } => format!("{} && {}", show(left), show(right)),
        Expr::Assign { target, value, .. } => format!("{} = {}", show(target), show(value)),
        Expr::Sequence(items) => {
            items.iter().map(|e| show(e)).collect::<Vec<_>>().join(", ")
        }
        Expr::Paren(inner) => format!("({})", show(inner)),
        Expr::Typed { expr, .. } => format!("{} as T", show(expr)),
        Expr::Node { id, parts } => show_node(*id, parts),
    }
}

fn show_node(id: u32, parts: &[Part]) -> String {
    if parts.is_empty() {
        return format!("#{}", id);
    }
    let parts: Vec<String> = parts
        .iter()
        .map(|part| match part {
            Part::Expr(expr) => show(expr),
            Part::Stmt(stmt) => show_stmt(stmt),
        })
        .collect();
    format!("#{}[{}]", id, parts.join(", "))
}

fn node(id: u32, items: Vec<Rc<Expr>>) -> Rc<Expr> {
    Rc::new(Expr::Node { id, parts: items.into_iter().map(Part::Expr).collect() })
}

fn show_function(function: &Function) -> String {
    let body = match &function.body {
        None => ";".to_string(),
        Some(body) => show_body(body),
    };
    format!("function {}() {}", function.name.clone().unwrap_or_default(), body)
}

fn show_variables(variables: &Variables) -> String {
    let items: Vec<String> = variables
        .declarators
        .iter()
        .map(|d| {
            let name = match &d.pattern {
                Pattern::Ident(name) => name.clone(),
                Pattern::Opaque { id, parts, .. } => show_node(*id, parts),
            };
            match &d.init {
                None => name,
                Some(init) => format!("{} = {}", name, show(init)),
            }
        })
        .collect();
    format!("const {};", items.join(", "))
}

fn show_stmt(stmt: &Stmt) -> String {
    match stmt {
        Stmt::Import { id, .. } => format!("import #{};", id),
        Stmt::Variables(variables) => show_variables(variables),
        Stmt::Function(function) => show_function(function),
        Stmt::Class(class) => format!("class {};", show_node(class.id, &class.parts)),
        Stmt::ExportNamed { declaration: Some(Declaration::Variables(variables)), .. } => {
            format!("export {}", show_variables(variables))
        }
        Stmt::ExportNamed { declaration: Some(Declaration::Function(function)), .. } => {
            format!("export {}", show_function(function))
        }
        Stmt::ExportNamed { id, .. } => format!("export #{};", id),
        Stmt::ExportDefault { exported: Exported::Expr(expr), .. } => {
            format!("export default {};", show(expr))
        }
        Stmt::ExportDefault { exported: Exported::Function(function), .. } => {
            format!("export default {}", show_function(function))
        }
        Stmt::ExportDefault { id, .. } => format!("export default #{};", id),
        Stmt::Expr(expr) => format!("{};", show(expr)),
        Stmt::Return(None) => "return;".to_string(),
        Stmt::Return(Some(expr)) => format!("return {};", show(expr)),
        Stmt::If { test, consequent, alternate } => {
            let tail = match alternate {
                None => String::new(),
                Some(alternate) => format!(" else {}", show_stmt(alternate)),
            };
            format!("if ({}) {}{}", show(test), show_stmt(consequent), tail)
        }
        Stmt::Block(body) => show_body(body),
        Stmt::Bare(id) => format!("#{};", id),
        Stmt::Node { id, parts } => format!("{};", show_node(*id, parts)),
    }
}

fn run(body: Vec<Rc<Stmt>>) -> Vec<String> {
    let (done, _) = transform_all_jsx(&body, "", &vec![], vec![]);
    done.iter().map(|s| show_stmt(s)).collect()
}

#[test]
fn expressions_become_properties_of_a_template() {
    let tree = element(0, plain("p"), vec![held("id", ident("a"))], vec![
        Child::Text(1),
        Child::Container(Some(ident("b"))),
        Child::Container(None),
        Child::Spread(ident("c")),
    ]);
    let done = run(vec![variable("App", Rc::new(Expr::Jsx(tree)))]);
    assert_eq!(done, vec![
        "const App_0 = (_props) => <p id={_props.v0}>1{_props.v1}{}{..._props.v2};",
        "const App = <App_0 v0={a} v1={b} v2={c}>;",
    ]);
}

#[test]
fn a_static_tree_stays() {
    let tree = element(0, plain("p"), vec![named("id", AttrValue::Text(7))], vec![Child::Text(1)]);
    let done = run(vec![variable("App", Rc::new(Expr::Jsx(tree)))]);
    assert_eq!(done, vec!["const App = <p id=\"7\">1;"]);
}

#[test]
fn components_that_may_change_are_taken_out() {
    let path = Name::Member(Rc::new(MemberName {
        object: NameObject::Member(Rc::new(MemberName {
            object: NameObject::This,
            property: "a".to_string(),
        })),
        property: "B".to_string(),
    }));
    let known = Name::Reference("Known".to_string());
    let local = Rc::new(Jsx::Element {
        start: 0,
        name: Name::Reference("Local".to_string()),
        closing: Some(Name::Reference("Local".to_string())),
        attrs: vec![],
        children: vec![
            Child::Jsx(element(0, path, vec![], vec![])),
            Child::Jsx(element(0, known, vec![], vec![])),
            Child::Jsx(element(0, Name::Opaque(3), vec![], vec![])),
        ],
    });
    let import = Rc::new(Stmt::Import { id: 1, locals: vec!["Known".to_string()] });
    let done = run(vec![import, variable("x", Rc::new(Expr::Jsx(local)))]);
    assert_eq!(done, vec![
        "import #1;",
        "const JSX_x_0 = (_props) => <_props.v0><_props.v1><Known><#3></_props.v0>;",
        "const x = <JSX_x_0 v0={Local} v1={this.a.B}>;",
    ]);
}

#[test]
fn a_ref_and_a_directive_are_handed_over() {
    let inner = Rc::new(Expr::Typed { form: Form::Given(1), expr: Rc::new(Expr::Paren(ident("r"))) });
    let directive = Attr::Named {
        name: AttrName::Namespaced { namespace: "use".to_string(), name: "focus".to_string() },
        value: AttrValue::Container(Some(ident("on"))),
    };
    let tree = element(0, plain("p"), vec![held("ref", inner), directive], vec![]);
    let done = run(vec![variable("App", Rc::new(Expr::Jsx(tree)))]);
    assert_eq!(done, vec![
        "const App_0 = (_props) => { const focus = _props.v2; return <p ref={_props.v0} use:focus={_props.v1}>; };",
        "const App = <App_0 v0={(_arg) => typeof r === \"function\" ? r(_arg) : r = _arg} v1={on} v2={focus}>;",
    ]);
    assert_eq!(
        show(&ref_callback("r")),
        "(_arg) => typeof r === \"function\" ? r(_arg) : r = _arg"
    );
}

#[test]
fn a_tree_as_a_value_is_wrapped_first() {
    let inner = element(0, plain("b"), vec![], vec![]);
    let tree = element(0, plain("p"), vec![named("icon", AttrValue::Jsx(inner)), named("ref", AttrValue::Absent)], vec![]);
    let mut out = Extraction::new();
    let left = extract_jsx_expressions(&mut out, &vec![], &tree);
    assert_eq!(show_jsx(&left), "<p icon={_props.v0} ref>");
    assert_eq!(out.attrs.iter().map(show_attr).collect::<Vec<_>>(), vec!["v0={<b>}"]);
    assert_eq!(show(&build_props_member("v9")), "_props.v9");
    assert_eq!(show_name(&build_jsx_member_name("v9")), "_props.v9");
}

#[test]
fn trees_are_found_where_values_stand() {
    let tree = |name: &str| {
        Rc::new(Expr::Jsx(element(0, plain("p"), vec![], vec![Child::Container(Some(ident(name)))])))
    };
    let body = vec![
        Rc::new(Stmt::If {
            test: ident("t"),
            consequent: Rc::new(Stmt::Return(Some(tree("a")))),
            alternate: Some(Rc::new(Stmt::Block(vec![Rc::new(Stmt::Return(Some(Rc::new(
                Expr::Conditional { test: ident("t"), consequent: tree("b"), alternate: ident("n") },
            ))))]))),
        }),
    ];
    let function = Function {
        form: Form::Plain,
        name: Some("App".to_string()),
        params: vec![],
        body: Some(body),
    };
    let done = run(vec![Rc::new(Stmt::Function(function))]);
    assert_eq!(done, vec![
        "const App_0 = (_props) => <p>{_props.v0};",
        "const App_1 = (_props) => <p>{_props.v0};",
        "function App() { if (t) return <App_0 v0={a}>; else { return t ? <App_1 v0={b}> : n; } }",
    ]);
}

fn given() -> Params {
    Params::Given { id: 1, parts: vec![] }
}

#[test]
fn functions_inside_an_expression_are_entered() {
    let tree = Rc::new(Expr::Jsx(element(0, plain("p"), vec![], vec![Child::Container(Some(ident("a")))])));
    let nested = Function {
        form: Form::Plain,
        name: Some("Inner".to_string()),
        params: vec![],
        body: Some(vec![Rc::new(Stmt::Return(Some(tree.clone())))]),
    };
    let body = vec![Rc::new(Stmt::Function(nested)), Rc::new(Stmt::Return(Some(tree.clone())))];
    let outer = Rc::new(Expr::Arrow { params: given(), expression: false, body });
    let done = run(vec![variable("App", outer)]);
    assert_eq!(done, vec![
        "const Inner_0 = (_props) => <p>{_props.v0};",
        "const App_0 = (_props) => <p>{_props.v0};",
        "const App = (#1) => { function Inner() { return <Inner_0 v0={a}>; } return <App_0 v0={a}>; };",
    ]);
    let short = Rc::new(Expr::Arrow {
        params: given(),
        expression: true,
        body: vec![Rc::new(Stmt::Expr(tree.clone()))],
    });
    let done = run(vec![variable("App", short)]);
    assert_eq!(done[1], "const App = (#1) => <App_0 v0={a}>;");
    let call = Rc::new(Expr::Call {
        form: Form::Plain,
        callee: ident("f"),
        args: vec![Arg::Expr(tree.clone()), Arg::Spread(tree)],
    });
    let done = run(vec![Rc::new(Stmt::Expr(call))]);
    assert_eq!(done, vec![
        "const JSX_template_0 = (_props) => <p>{_props.v0};",
        "const JSX_template_1 = (_props) => <p>{_props.v0};",
        "f(<JSX_template_0 v0={a}>, ...<JSX_template_1 v0={a}>);",
    ]);
}

#[test]
fn every_outermost_tree_is_replaced() {
    let tree = |name: &str| {
        Rc::new(Expr::Jsx(element(0, plain("p"), vec![], vec![Child::Container(Some(ident(name)))])))
    };
    let cast = Rc::new(Expr::Typed { form: Form::Given(1), expr: tree("a") });
    let list = node(2, vec![tree("b"), ident("n"), node(3, vec![tree("c")])]);
    let test = Rc::new(Expr::Conditional {
        test: tree("d"),
        consequent: Rc::new(Expr::Member { object: tree("e"), property: "x".to_string() }),
        alternate: Rc::new(Expr::Call { form: Form::Plain, callee: tree("f"), args: vec![] }),
    });
    let done = run(vec![Rc::new(Stmt::Expr(Rc::new(Expr::Sequence(vec![cast, list, test]))))]);
    assert_eq!(done.len(), 7);
    assert_eq!(
        done[6],
        "<JSX_template_0 v0={a}> as T, #2[<JSX_template_1 v0={b}>, n, #3[<JSX_template_2 v0={c}>]], <JSX_template_3 v0={d}> ? <JSX_template_4 v0={e}>.x : <JSX_template_5 v0={f}>();"
    );
    let method = Rc::new(Expr::Function(Function {
        form: Form::Plain,
        name: None,
        params: vec![Part::Expr(tree("a"))],
        body: Some(vec![Rc::new(Stmt::Return(Some(tree("b"))))]),
    }));
    let class = Stmt::Class(Class {
        id: 4,
        name: Some("C".to_string()),
        parts: vec![Part::Expr(method)],
    });
    let repeat = Stmt::Node {
        id: 5,
        parts: vec![
            Part::Expr(tree("c")),
            Part::Stmt(Rc::new(Stmt::Block(vec![Rc::new(Stmt::Expr(tree("d")))]))),
        ],
    };
    let done = run(vec![Rc::new(class), Rc::new(repeat)]);
    assert_eq!(done.len(), 6);
    assert_eq!(
        done[2],
        "class #4[function () { return <JSX_template_3 v0={b}>; }];"
    );
    assert_eq!(
        done[5],
        "#5[<JSX_template_0 v0={c}>, { <JSX_template_1 v0={d}>; }];"
    );
    let pattern = Pattern::Opaque {
        id: 6,
        names: vec!["x".to_string()],
        parts: vec![Part::Expr(tree("a"))],
    };
    let declaration = Variables {
        form: Form::Plain,
        declarators: vec![Declarator { pattern, init: Some(tree("b")) }],
    };
    let done = run(vec![Rc::new(Stmt::Variables(declaration))]);
    assert_eq!(done[2], "const #6[<JSX_template_0 v0={a}>] = <JSX_template_1 v0={b}>;");
}

#[test]
fn names_bound_by_destructuring_are_collected() {
    let body = vec![
        Rc::new(Stmt::Import { id: 1, locals: vec!["B".to_string()] }),
        Rc::new(Stmt::Variables(Variables {
            form: Form::Plain,
            declarators: vec![Declarator {
                pattern: Pattern::Opaque { id: 2, names: vec!["A".to_string()], parts: vec![] },
                init: Some(ident("m")),
            }],
        })),
        Rc::new(Stmt::Function(Function {
            form: Form::Plain,
            name: Some("C".to_string()),
            params: vec![],
            body: Some(vec![]),
        })),
    ];
    assert_eq!(collect_top_level_names(&body), vec!["B", "A", "C"]);
    assert_eq!(get_descriptive_name_from_statement(&body[1]), "template");
    let known = element(0, Name::Reference("A".to_string()), vec![], vec![]);
    let mut whole = body;
    whole.push(variable("x", Rc::new(Expr::Jsx(known))));
    let done = run(whole);
    assert_eq!(done[3], "const x = <A>;");
}

#[test]
fn exports_are_entered() {
    let tree = || {
        Rc::new(Expr::Jsx(element(0, plain("p"), vec![], vec![Child::Container(Some(ident("a")))])))
    };
    let done = run(vec![
        Rc::new(Stmt::ExportNamed {
            id: 1,
            declaration: Some(Declaration::Variables(variables("x", tree()))),
        }),
        Rc::new(Stmt::ExportDefault { id: 2, exported: Exported::Expr(tree()) }),
        Rc::new(Stmt::ExportNamed { id: 3, declaration: None }),
    ]);
    assert_eq!(done, vec![
        "const JSX_x_0 = (_props) => <p>{_props.v0};",
        "export const x = <JSX_x_0 v0={a}>;",
        "const JSX_template_0 = (_props) => <p>{_props.v0};",
        "export default <JSX_template_0 v0={a}>;",
        "export #3;",
    ]);
}

#[test]
fn the_last_statement_chooses_its_name_first() {
    let tree = || {
        Rc::new(Expr::Jsx(element(0, plain("p"), vec![], vec![Child::Container(Some(ident("a")))])))
    };
    let body = vec![Rc::new(Stmt::Expr(tree())), Rc::new(Stmt::Expr(tree()))];
    let (done, taken) = transform_all_jsx(&body, "", &vec![], vec!["JSX_template_0".to_string()]);
    let done: Vec<String> = done.iter().map(|s| show_stmt(s)).collect();
    assert_eq!(done, vec![
        "const JSX_template_2 = (_props) => <p>{_props.v0};",
        "<JSX_template_2 v0={a}>;",
        "const JSX_template_1 = (_props) => <p>{_props.v0};",
        "<JSX_template_1 v0={a}>;",
    ]);
    assert_eq!(taken, vec!["JSX_template_0", "JSX_template_1", "JSX_template_2"]);
}

#[test]
fn a_comment_keeps_a_tree() {
    let source = "// @refresh jsx-skip\n<p>{a}</p>";
    let comments = vec![Comment { attached_to: 21, content: Span { start: 2, end: 20 } }];
    let tree = |start: u32| {
        Rc::new(Stmt::Expr(Rc::new(Expr::Jsx(element(
            start,
            plain("p"),
            vec![],
            vec![Child::Container(Some(ident("a")))],
        )))))
    };
    let (kept, _) = transform_all_jsx(&vec![tree(21)], source, &comments, vec![]);
    assert_eq!(kept.len(), 1);
    let (changed, _) = transform_all_jsx(&vec![tree(22)], source, &comments, vec![]);
    assert_eq!(changed.len(), 2);
    let chars: Vec<char> = source.chars().collect();
    assert!(should_skip_jsx(21, &comments, &chars));
    assert!(!should_skip_jsx(20, &comments, &chars));
    let outside = vec![Comment { attached_to: 21, content: Span { start: 2, end: 99 } }];
    assert!(!should_skip_jsx(21, &outside, &chars));
}

#[test]
fn names_are_collected_from_the_top_level() {
    let class = |name: Option<&str>| Class { id: 1, name: name.map(|n| n.to_string()), parts: vec![] };
    let function = |name: &str| Function {
        form: Form::Plain,
        name: Some(name.to_string()),
        params: vec![],
        body: None,
    };
    let body = vec![
        Rc::new(Stmt::Import { id: 1, locals: vec!["a".to_string(), "b".to_string()] }),
        variable("c", ident("x")),
        Rc::new(Stmt::Function(function("d"))),
        Rc::new(Stmt::Class(class(Some("e")))),
        Rc::new(Stmt::ExportNamed { id: 2, declaration: Some(Declaration::Class(class(Some("f")))) }),
        Rc::new(Stmt::ExportDefault { id: 3, exported: Exported::Class(class(None)) }),
        Rc::new(Stmt::ExportDefault { id: 3, exported: Exported::Function(function("g")) }),
        Rc::new(Stmt::Block(vec![variable("h", ident("x"))])),
    ];
    assert_eq!(collect_top_level_names(&body), vec!["a", "b", "c", "d", "e", "f", "g"]);
    let described: Vec<String> =
        body.iter().map(|s| get_descriptive_name_from_statement(s)).collect();
    assert_eq!(described, vec![
        "template", "c", "d", "template", "template", "template", "g", "template",
    ]);
    assert!(!statement_may_contain_jsx(&body[0]));
    assert!(!statement_may_contain_jsx(&Stmt::Bare(1)));
    assert!(statement_may_contain_jsx(&body[1]));
}

#[test]
fn names_have_patterns() {
    assert!(is_component_ish_name("App") && !is_component_ish_name("app"));
    assert!(!is_component_ish_name("_App") && is_component_name_pattern("_App"));
    assert!(!is_component_ish_name("") && !is_component_name_pattern(""));
    assert!(!is_component_name_pattern("\u{c9}tat"));
    let mut taken = vec!["a_0".to_string()];
    assert_eq!(generate_unique_name("a", &mut taken), "a_1");
    assert_eq!(generate_unique_name("b", &mut taken), "b_0");
    assert_eq!(generate_unique_name("a", &mut taken), "a_2");
    assert_eq!(taken, vec!["a_0", "a_1", "b_0", "a_2"]);
}
