use solid_jsx::ast::{Declarator, Element, Expr, Facts, Key, Kind, Pattern, Prop, PropKind, Span, Stmt, VarKind};
use solid_jsx::capture::{is_root_create_component_expr, Rewrite};
use solid_jsx::capture_class::{
    capture_class_component_this, capture_this_in_statement_list, process_class_property_value,
    rewrite_component_expr_this_capture, ClassMember,
};
use solid_jsx::flatten::{extract_statement_position_iife, flatten_statement_position_iifes_in_list};
use solid_jsx::ir::BlockContext;
use std::rc::Rc;

fn node(kind: Kind) -> Rc<Expr> {
    Rc::new(Expr {
        span: Span { start: 0, end: 0 },
        facts: Facts { dynamic: false, static_text: None, condition: None },
        kind,
    })
}

fn ident(name: &str) -> Rc<Expr> {
    node(Kind::Ident { name: name.to_string(), symbol: None })
}

fn this(property: &str) -> Rc<Expr> {
    node(Kind::Member { object: node(Kind::This), property: property.to_string(), optional: false })
}

fn call(callee: Rc<Expr>, args: Vec<Rc<Expr>>) -> Rc<Expr> {
    node(Kind::Call { callee, args: args.into_iter().map(Element::Expr).collect(), optional: false })
}

fn component(first: Rc<Expr>, props: Vec<Prop>) -> Rc<Expr> {
    call(ident("_$createComponent"), vec![first, node(Kind::Object(props))])
}

fn property(kind: PropKind, value: Rc<Expr>) -> Prop {
    Prop::Named {
        span: Span { start: 0, end: 0 },
        kind,
        key: Key::Ident("k".to_string()),
        value,
        method: false,
        shorthand: false,
        computed: false,
    }
}

fn function(body: Vec<Stmt>) -> Rc<Expr> {
    node(Kind::Function { is_async: false, generator: false, name: None, params: vec![], body })
}

fn arrow(expression: bool, body: Vec<Stmt>) -> Rc<Expr> {
    node(Kind::Arrow { is_async: false, params: vec![], expression, body })
}

fn rewrite() -> Rewrite<'static> {
    Rewrite {
        context: BlockContext::new(false, "", true, "m", "m", "m"),
        alias: None,
        handled: false,
        allow: false,
        rewritten: vec![],
    }
}

fn show_list(body: &[Stmt]) -> String {
    body.iter().map(show_stmt).collect::<Vec<_>>().join(" ")
}

fn show_stmt(stmt: &Stmt) -> String {
    match stmt {
        Stmt::Expr(expr) => format!("{};", show(expr)),
        Stmt::Return(Some(expr)) => format!("return {};", show(expr)),
        Stmt::Return(None) => "return;".to_string(),
        Stmt::Var { declarators, .. } => {
            let items: Vec<String> = declarators
                .iter()
                .map(|d| {
                    let name = match &d.pattern {
                        Pattern::Ident(name) => name.clone(),
                        _ => "?".to_string(),
                    };
                    match &d.init {
                        None => name,
                        Some(init) => format!("{} = {}", name, show(init)),
                    }
                })
                .collect();
            format!("const {};", items.join(", "))
        }
        Stmt::Block(body) => format!("{{ {} }}", show_list(body)),
        Stmt::Opaque(id) => format!("#{};", id),
        _ => "?".to_string(),
    }
}

fn show(expr: &Expr) -> String {
    match &expr.kind {
        Kind::Ident { name, .. } => name.clone(),
        Kind::This => "this".to_string(),
        Kind::Member { object, property, .. } => format!("{}.{}", show(object), property),
        Kind::Call { callee, args, .. } => {
            let args: Vec<String> = args
                .iter()
                .map(|a| match a {
                    Element::Expr(expr) => show(expr),
                    _ => "?".to_string(),
                })
                .collect();
            format!("{}({})", show(callee), args.join(", "))
        }
        Kind::Object(props) => {
            let items: Vec<String> = props
                .iter()
                .map(|p| match p {
                    Prop::Named { value, .. } => show(value),
                    Prop::Spread { argument, .. } => format!("...{}", show(argument)),
                })
                .collect();
            format!("{{{}}}", items.join(", "))
        }
        Kind::Function { body, .. } => format!("function {{ {} }}", show_list(body)),
        Kind::Arrow { expression, body, .. } => {
            format!("{}=> {{ {} }}", if *expression { "" } else { "()" }, show_list(body))
        }
        Kind::Paren(inner) => format!("({})", show(inner)),
        Kind::Opaque(id) => format!("#{}", id),
        _ => "?".to_string(),
    }
}

#[test]
fn this_is_bound_in_front_of_a_component() {
    let made = component(this("Comp"), vec![
        property(PropKind::Init, this("a")),
        property(PropKind::Getter, function(vec![Stmt::Return(Some(this("b")))])),
        property(PropKind::Init, function(vec![Stmt::Return(Some(this("c")))])),
    ]);
    let list = vec![Stmt::Expr(this("x")), Stmt::Return(Some(made)), Stmt::Block(vec![])];
    let mut st = rewrite();
    let done = capture_this_in_statement_list(&list, &vec![], &mut st);
    assert_eq!(
        show_list(&done),
        "this.x; const _self$ = this; return _$createComponent(this.Comp, {_self$.a, function { return _self$.b; }, function { return this.c; }}); {  }"
    );
}

#[test]
fn functions_inside_an_accessor_keep_their_this() {
    let inner = function(vec![Stmt::Expr(this("own"))]);
    let getter = function(vec![Stmt::Expr(inner), Stmt::Expr(arrow(true, vec![Stmt::Expr(this("a"))]))]);
    let made = component(ident("Comp"), vec![property(PropKind::Getter, getter)]);
    let (done, alias) = rewrite_component_expr_this_capture(&made, &vec![], &mut rewrite());
    assert_eq!(alias, Some("_self$".to_string()));
    assert_eq!(
        show(&done),
        "_$createComponent(Comp, {function { function { this.own; }; => { _self$.a; }; }})"
    );
}

#[test]
fn without_this_nothing_changes() {
    let made = component(this("Comp"), vec![property(PropKind::Init, ident("a"))]);
    let mut st = rewrite();
    let (done, alias) = rewrite_component_expr_this_capture(&made, &vec![], &mut st);
    assert_eq!(alias, None);
    assert_eq!(show(&done), show(&made));
    assert_eq!(st.context.generate_uid("self$"), "_self$");
}

#[test]
fn nodes_that_are_carried_along_are_noted() {
    let made = component(ident("Comp"), vec![
        property(PropKind::Init, node(Kind::Opaque(7))),
        property(PropKind::Init, node(Kind::Opaque(8))),
    ]);
    let mut st = rewrite();
    let (_, alias) = rewrite_component_expr_this_capture(&made, &vec![8], &mut st);
    assert_eq!(alias, Some("_self$".to_string()));
    assert_eq!(st.rewritten, vec![(8, "_self$".to_string())]);
}

#[test]
fn fields_of_a_class_are_wrapped() {
    let made = || component(ident("Comp"), vec![property(PropKind::Init, this("a"))]);
    let mut st = rewrite();
    let done = process_class_property_value(&node(Kind::Paren(made())), &vec![], &mut st);
    assert_eq!(
        show(&done),
        "(()=> { const _self$ = this; return _$createComponent(Comp, {_self$.a}); }())"
    );
    let done = process_class_property_value(&arrow(true, vec![Stmt::Expr(made())]), &vec![], &mut st);
    assert_eq!(
        show(&done),
        "()=> { const _self$2 = this; return _$createComponent(Comp, {_self$2.a}); }"
    );
    let done = process_class_property_value(&this("a"), &vec![], &mut st);
    assert_eq!(show(&done), "this.a");
    let members = vec![
        ClassMember::Method(Some(vec![Stmt::Return(Some(made()))])),
        ClassMember::Method(None),
        ClassMember::Property(Some(function(vec![Stmt::Return(Some(made()))]))),
        ClassMember::Opaque(3),
    ];
    let done = capture_class_component_this(&members, &vec![], &mut st);
    match &done[0] {
        ClassMember::Method(Some(body)) => assert_eq!(
            show_list(body),
            "const _self$3 = this; return _$createComponent(Comp, {_self$3.a});"
        ),
        _ => panic!("no method"),
    }
    match &done[2] {
        ClassMember::Property(Some(value)) => assert_eq!(
            show(value),
            "function { const _self$4 = this; return _$createComponent(Comp, {_self$4.a}); }"
        ),
        _ => panic!("no field"),
    }
    assert!(matches!(done[1], ClassMember::Method(None)));
    assert!(matches!(done[3], ClassMember::Opaque(3)));
}

#[test]
fn only_calls_that_make_components_count() {
    assert!(is_root_create_component_expr(&component(ident("A"), vec![])));
    assert!(is_root_create_component_expr(&node(Kind::Paren(component(ident("A"), vec![])))));
    assert!(!is_root_create_component_expr(&call(ident("other"), vec![])));
    assert!(!is_root_create_component_expr(&ident("_$createComponent")));
}

#[test]
fn called_functions_are_flattened() {
    let made = |value: &str| {
        call(
            arrow(false, vec![Stmt::Expr(ident("first")), Stmt::Return(Some(ident(value)))]),
            vec![],
        )
    };
    let declarator = |name: &str, init: Rc<Expr>| Declarator {
        pattern: Pattern::Ident(name.to_string()),
        init: Some(init),
    };
    let list = vec![
        Stmt::Var {
            kind: VarKind::Const,
            declarators: vec![declarator("a", made("x")), declarator("b", ident("y"))],
        },
        Stmt::Expr(made("z")),
        Stmt::Return(Some(made("r"))),
    ];
    let done = flatten_statement_position_iifes_in_list(&list);
    assert_eq!(
        show_list(&done),
        "first; const a = x, b = y; ()=> { first; return z; }(); first; return r;"
    );
    assert!(done.len() >= list.len());
}

#[test]
fn only_plain_calls_are_taken_apart() {
    let body = || vec![Stmt::Return(Some(ident("x")))];
    assert!(extract_statement_position_iife(&call(arrow(false, body()), vec![])).is_some());
    assert!(extract_statement_position_iife(&call(arrow(false, body()), vec![ident("a")])).is_none());
    assert!(extract_statement_position_iife(&call(arrow(true, vec![Stmt::Expr(ident("x"))]), vec![])).is_none());
    assert!(extract_statement_position_iife(&call(function(body()), vec![])).is_none());
    assert!(extract_statement_position_iife(&call(arrow(false, vec![Stmt::Return(None)]), vec![])).is_none());
    assert!(extract_statement_position_iife(&call(arrow(false, vec![]), vec![])).is_none());
}
