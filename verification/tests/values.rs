use solid_jsx::ast::{
    BinaryOp, Expr, Facts, Key, Kind, Number, Quasi, Span, StaticTextValue, Symbol, UnaryOp,
};
use solid_jsx::entry::SolidTransform;
use solid_jsx::imports::{order_helpers, order_mixed_helpers, without_taken};
use solid_jsx::interface::{
    refresh_runtime, should_transform, JsRendererConfig, JsTransformOptions, RefreshRuntime,
};
use solid_jsx::ir::{
    helper_local_name, template_var_name, BlockContext, HelperImport, HelperSource,
};
use solid_jsx::options::{GenerateMode, TransformOptions};
use solid_jsx::output::{get_numbered_id, is_math_ml_template};
use solid_jsx::program::escape_string_for_template;
use solid_jsx::spread::{make_getter_prop_key, make_prop_key};
use solid_jsx::statics::{
    compare_primitive_values, compare_utf16_strings, evaluate_static_primitive_expression,
    loose_equals, with_static_text, Answer, Arithmetic, Evaluation, StaticPrimitiveValue,
};
use solid_jsx::text::{camel_to_kebab, escape_html, to_ascii_lowercase, trim_whitespace};
use std::cmp::Ordering;
use std::rc::Rc;

fn node(kind: Kind) -> Rc<Expr> {
    Rc::new(Expr {
        span: Span { start: 0, end: 0 },
        facts: Facts { dynamic: false, static_text: None, condition: None },
        kind,
    })
}

fn float(value: f64) -> Number {
    Number { bits: value.to_bits(), text: format!("{}", value) }
}

fn number(value: f64) -> Rc<Expr> {
    node(Kind::Num(float(value)))
}

fn string(text: &str) -> Rc<Expr> {
    node(Kind::Str(text.to_string()))
}

fn binary(left: Rc<Expr>, op: BinaryOp, right: Rc<Expr>) -> Rc<Expr> {
    node(Kind::Binary { op, left, right })
}

fn context() -> BlockContext<'static> {
    BlockContext::new(false, "", true, "base", "dom", "universal")
}

fn import(imported: &str, module: &str) -> HelperImport {
    HelperImport {
        imported: imported.to_string(),
        local: helper_local_name(imported),
        module: module.to_string(),
    }
}

fn names(list: &[HelperImport]) -> Vec<String> {
    list.iter().map(|i| i.imported.clone()).collect()
}

#[test]
fn sums_of_texts_fold() {
    let expr = binary(string("a"), BinaryOp::Addition, number(1.0));
    match evaluate_static_primitive_expression(&expr, &context(), &vec![]) {
        Evaluation::Value(value) => assert_eq!(value.as_js_text(), "a1"),
        _ => panic!("no value"),
    }
}

#[test]
fn arithmetic_is_asked_for_once() {
    let expr = binary(number(1.5), BinaryOp::Multiplication, number(2.0));
    let (op, left, right) = match evaluate_static_primitive_expression(&expr, &context(), &vec![]) {
        Evaluation::Needs { op, left, right } => (op, left, right),
        _ => panic!("no question"),
    };
    assert_eq!((op, left, right), (Arithmetic::Product, 1.5f64.to_bits(), 2.0f64.to_bits()));
    let table = vec![Answer { op, left, right, result: float(3.0) }];
    match evaluate_static_primitive_expression(&expr, &context(), &table) {
        Evaluation::Value(value) => assert_eq!(value.as_js_text(), "3"),
        _ => panic!("no value"),
    }
}

#[test]
fn constants_are_remembered() {
    let options = TransformOptions::solid_defaults();
    let mut transform = SolidTransform::new(&options, "");
    let symbol = Symbol { id: 5, is_const: true, is_function: false, is_import: false };
    let name = node(Kind::Ident { name: "x".to_string(), symbol: Some(symbol) });
    let asked = |transform: &SolidTransform| {
        match evaluate_static_primitive_expression(&name, &transform.context, &vec![]) {
            Evaluation::Value(value) => Some(value.as_js_text()),
            _ => None,
        }
    };
    assert_eq!(asked(&transform), None);
    assert_eq!(
        transform.exit_variable_declarator(Some(5), true, &Some(string("v")), &vec![]),
        Ok(())
    );
    assert_eq!(asked(&transform), None);
    assert_eq!(
        transform.exit_variable_declarator(Some(5), false, &Some(string("v")), &vec![]),
        Ok(())
    );
    assert_eq!(asked(&transform), Some("v".to_string()));
    let sum = binary(number(1.0), BinaryOp::Addition, number(2.0));
    assert_eq!(
        transform.exit_variable_declarator(Some(6), false, &Some(sum), &vec![]),
        Err((Arithmetic::Sum, 1.0f64.to_bits(), 2.0f64.to_bits()))
    );
    assert_eq!(transform.exit_variable_declarator(None, false, &None, &vec![]), Ok(()));
    assert!(matches!(
        transform.context.get_constant_text_value(5),
        Some(StaticTextValue::String(text)) if text == "v"
    ));
}

#[test]
fn templates_fold_piece_by_piece() {
    let quasi = |raw: &str| Quasi { raw: raw.to_string(), cooked: Some(raw.to_string()) };
    let expr = node(Kind::Template {
        quasis: vec![quasi("a"), quasi("b")],
        exprs: vec![node(Kind::Bool(true))],
    });
    match evaluate_static_primitive_expression(&expr, &context(), &vec![]) {
        Evaluation::Value(value) => assert_eq!(value.as_js_text(), "atrueb"),
        _ => panic!("no value"),
    }
    let negative = node(Kind::Unary { op: UnaryOp::Minus, argument: number(2.0) });
    match evaluate_static_primitive_expression(&negative, &context(), &vec![]) {
        Evaluation::Value(value) => assert_eq!(value.as_js_text(), "-2"),
        _ => panic!("no value"),
    }
}

#[test]
fn floats_compare_by_their_bits() {
    let value = |v: f64| StaticPrimitiveValue::Number(float(v));
    assert!(value(0.0).strict_equals(&value(-0.0)));
    assert!(!value(f64::NAN).strict_equals(&value(f64::NAN)));
    assert!(!value(f64::NAN).is_truthy() && !value(-0.0).is_truthy() && value(0.1).is_truthy());
    let less = |a: f64, b: f64| compare_primitive_values(BinaryOp::LessThan, &value(a), &value(b));
    assert_eq!(less(-2.0, -1.0), Some(true));
    assert_eq!(less(-1.0, 1.0), Some(true));
    assert_eq!(less(2.0, 1.0), Some(false));
    assert_eq!(less(f64::NAN, 1.0), Some(false));
}

#[test]
fn texts_compare_by_their_units() {
    assert_eq!(compare_utf16_strings("a", "b"), Ordering::Less);
    assert_eq!(compare_utf16_strings("ab", "a"), Ordering::Greater);
    assert_eq!(compare_utf16_strings("a", "a"), Ordering::Equal);
    assert_eq!(compare_utf16_strings("\u{ff61}", "\u{1f600}"), Ordering::Greater);
}

#[test]
fn loose_equality_is_known_in_part() {
    let null = StaticPrimitiveValue::Null;
    let undefined = StaticPrimitiveValue::Undefined;
    let text = StaticPrimitiveValue::String("1".to_string());
    assert_eq!(loose_equals(&null, &undefined), Some(true));
    assert_eq!(loose_equals(&null, &null), Some(true));
    assert_eq!(loose_equals(&null, &text), None);
    assert_eq!(loose_equals(&text, &text), Some(true));
}

#[test]
fn template_text_is_escaped() {
    assert_eq!(
        escape_string_for_template("a{`\\\n\t\u{8}\u{c}\u{b}\r\u{2028}\u{2029}b"),
        "a\\{\\`\\\\\\n\\t\\b\\f\\v\\r\\u2028\\u2029b"
    );
}

#[test]
fn identifiers_are_counted_in_letters() {
    assert_eq!(get_numbered_id(0), "e");
    assert_eq!(get_numbered_id(1), "t");
    let all: Vec<String> = (0..200).map(get_numbered_id).collect();
    for i in 0..200 {
        for j in 0..i {
            assert_ne!(all[i], all[j]);
        }
    }
}

#[test]
fn variables_are_numbered() {
    let mut context = context();
    let made: Vec<String> = (0..13).map(|_| context.generate_uid("el$")).collect();
    assert_eq!(made[0], "_el$");
    assert_eq!(made[1], "_el$2");
    assert_eq!(made[8], "_el$9");
    assert_eq!(made[9], "_el$0");
    assert_eq!(made[10], "_el$1");
    assert_eq!(made[11], "_el$10");
    assert_eq!(context.generate_uid("ref$"), "_ref$");
    assert_eq!(template_var_name(9), "_tmpl$10");
}

#[test]
fn helpers_are_imported_once() {
    let mut context = context();
    let first = context.register_helper_with_source("insert", HelperSource::Dom);
    let again = context.register_helper_with_source("insert", HelperSource::Dom);
    assert_eq!(first, again);
    let other = context.register_helper_with_source("insert", HelperSource::Universal);
    assert_ne!(first, other);
    let imports = context.helper_imports_vec();
    assert_eq!(imports.len(), 2);
    assert_eq!(imports[0].module, "dom");
    assert_eq!(imports[1].module, "universal");
}

#[test]
fn imports_are_ordered() {
    let list = vec![
        import("insert", "m"),
        import("template", "m"),
        import("delegateEvents", "m"),
        import("createComponent", "m"),
    ];
    let ordered = order_helpers(list, false);
    assert_eq!(ordered.len(), 4);
    assert_eq!(names(&ordered)[0], "template");
    let list = vec![import("insert", "dom"), import("createElement", "base")];
    assert_eq!(order_mixed_helpers(list, "dom", "base").len(), 2);
    let list = vec![import("insert", "m"), import("insert", "m"), import("effect", "m")];
    let added = without_taken(list, vec!["_$effect".to_string()]);
    assert_eq!(names(&added), vec!["insert"]);
}

#[test]
fn options_have_defaults() {
    let given = JsTransformOptions::default();
    let options = given.to_options();
    assert!(matches!(options.generate, GenerateMode::Dom));
    assert!(!options.hydratable && options.delegate_events && options.omit_quotes);
    assert_eq!(options.filename, "input.jsx");
    assert_eq!(options.hmr_bundler, "standard");
    let given = JsTransformOptions {
        generate: Some("dynamic".to_string()),
        hydratable: Some(true),
        omit_quotes: Some(false),
        require_import_source: Some("solid".to_string()),
        renderers: Some(vec![JsRendererConfig {
            name: "dom".to_string(),
            module_name: "r-dom".to_string(),
            elements: vec!["div".to_string()],
        }]),
        ..JsTransformOptions::default()
    };
    let options = given.to_options();
    assert!(matches!(options.generate, GenerateMode::Dynamic));
    assert!(options.hydratable && !options.omit_quotes);
    assert_eq!(options.require_import_source, Some("solid"));
    assert_eq!(options.dynamic_dom_renderer_module_name(), Some("r-dom"));
    assert!(options.dynamic_uses_dom_renderer_for_tag("div"));
    assert!(!options.dynamic_uses_dom_renderer_for_tag("mesh"));
    assert!(options.should_use_universal_for_intrinsic("mesh"));
    assert!(!options.should_use_universal_for_intrinsic("div"));
}

#[test]
fn options_collect() {
    let mut options = TransformOptions::solid_defaults();
    options.register_helper("insert");
    options.register_helper("insert");
    options.register_delegate("click");
    assert_eq!(options.helpers.len(), 1);
    assert!(options.delegates.contains("click"));
    assert_eq!(options.push_template("<p>".to_string(), false), 0);
    assert_eq!(options.push_template("<g>".to_string(), true), 1);
    assert_eq!(options.templates[1], ("<g>".to_string(), true));
}

#[test]
fn runtimes_have_names() {
    assert_eq!(refresh_runtime("esm"), RefreshRuntime::Esm);
    assert_eq!(refresh_runtime("vite"), RefreshRuntime::Vite);
    assert_eq!(refresh_runtime("webpack5"), RefreshRuntime::Webpack5);
    assert_eq!(refresh_runtime("rspack-esm"), RefreshRuntime::RspackEsm);
    assert_eq!(refresh_runtime("else"), RefreshRuntime::Standard);
}

#[test]
fn a_pragma_may_be_asked_for() {
    let comments = vec![" plain ".to_string(), "* @jsxImportSource solid-js ".to_string()];
    assert!(should_transform(&comments, None));
    assert!(should_transform(&comments, Some("solid-js")));
    assert!(!should_transform(&comments, Some("react")));
    let twice = vec!["@jsxImportSource a @jsxImportSource a".to_string()];
    assert!(!should_transform(&twice, Some("a")));
}

#[test]
fn texts_are_worked_on() {
    assert_eq!(escape_html("a<b&\"c\"", false), "a&lt;b&amp;\"c\"");
    assert_eq!(escape_html("a<b&\"c\"", true), "a<b&amp;&quot;c&quot;");
    assert_eq!(to_ascii_lowercase("AbC\u{c9}"), "abc\u{c9}");
    assert_eq!(camel_to_kebab("fontSize"), "font-size");
    assert_eq!(camel_to_kebab("\u{c9}ta\u{c9}t"), "\u{e9}ta-\u{e9}t");
    assert_eq!(trim_whitespace("a\n   b"), "a b");
    assert_eq!(trim_whitespace("\n  a  \n"), "a ");
    assert!(is_math_ml_template("<mfrac>"));
    assert!(!is_math_ml_template("<div>"));
}

fn bare(kind: Kind) -> Expr {
    Expr {
        span: Span { start: 3, end: 4 },
        facts: Facts { dynamic: true, static_text: None, condition: None },
        kind,
    }
}

#[test]
fn what_an_expression_folds_to_is_noted() {
    let sum = Kind::Binary { op: BinaryOp::Addition, left: string("a"), right: number(1.0) };
    let done = with_static_text(bare(sum), &context(), &vec![]).unwrap();
    assert!(matches!(&done.facts.static_text, Some(StaticTextValue::String(text)) if text == "a1"));
    assert!(done.facts.dynamic && done.span == Span { start: 3, end: 4 });
    let name = Kind::Ident { name: "x".to_string(), symbol: None };
    let done = with_static_text(bare(name), &context(), &vec![]).unwrap();
    assert!(done.facts.static_text.is_none());
    let product =
        Kind::Binary { op: BinaryOp::Multiplication, left: number(1.5), right: number(2.0) };
    let (same, op, left, right) = with_static_text(bare(product), &context(), &vec![]).unwrap_err();
    assert_eq!((op, left, right), (Arithmetic::Product, 1.5f64.to_bits(), 2.0f64.to_bits()));
    let table = vec![Answer { op, left, right, result: float(3.0) }];
    let done = with_static_text(same, &context(), &table).unwrap();
    assert!(matches!(&done.facts.static_text, Some(StaticTextValue::Number(n)) if n.text == "3"));
}

#[test]
fn texts_are_totally_ordered() {
    let all = ["", "a", "ab", "b", "\u{e000}", "\u{ff61}", "\u{10000}", "\u{1f600}"];
    for left in all {
        for right in all {
            let there = compare_utf16_strings(left, right);
            assert_eq!(there, compare_utf16_strings(right, left).reverse());
            assert_eq!(there == Ordering::Equal, left == right);
            for third in all {
                if there == Ordering::Less && compare_utf16_strings(right, third) == Ordering::Less {
                    assert_eq!(compare_utf16_strings(left, third), Ordering::Less);
                }
            }
        }
    }
}

#[test]
fn a_leading_marker_is_found_anywhere() {
    let found = |source: &str, span: Span| {
        let context = BlockContext::new(false, source, true, "base", "dom", "universal");
        (
            context.has_static_marker_comment(span, "@static"),
            context.has_static_marker_comment_anywhere(span, "@static"),
        )
    };
    let whole = |source: &str| found(source, Span { start: 0, end: source.len() as u32 });
    assert_eq!(whole("{ ( /*@static*/ x"), (true, true));
    assert_eq!(whole("{{ a: /*@static*/ x }}"), (false, true));
    assert_eq!(whole("{ x }"), (false, false));
}

#[test]
fn short_names_are_numerals() {
    let digits = "etaoinshrdlucwmfygpbTAOISWCBvkxjqzPHFMDRELNGUKVYJQZX_$";
    for number in [0usize, 1, 53, 54, 55, 54 * 54 - 1, 54 * 54, 123456] {
        let id = get_numbered_id(number);
        let value = id.chars().fold(0, |n, c| n * 54 + digits.find(c).unwrap());
        assert_eq!(value, number);
        assert!(!id.starts_with('e') || id == "e");
    }
}

#[test]
fn variables_of_one_prefix_differ_whatever_comes_between() {
    let mut context = context();
    let first = context.generate_uid("el$");
    context.generate_uid("v$");
    context.register_helper("insert");
    let second = context.generate_uid("el$");
    assert_eq!((first.as_str(), second.as_str()), ("_el$", "_el$2"));
}

#[test]
fn kebab_case_is_reached_at_once() {
    for name in ["", "A", "fontSize", "WebkitBoxFlex", "a-b", "x1Y2Z"] {
        let once = camel_to_kebab(name);
        assert_eq!(camel_to_kebab(&once), once);
        assert!(!once.chars().any(|c| c.is_ascii_uppercase()));
        let inner = name.chars().skip(1).filter(|c| c.is_ascii_uppercase()).count();
        assert_eq!(once.len(), name.len() + inner);
    }
    assert_eq!(camel_to_kebab("WebkitBoxFlex"), "webkit-box-flex");
    let bold = "a\u{1d400}";
    assert_ne!(camel_to_kebab(&camel_to_kebab(bold)), camel_to_kebab(bold));
}

#[test]
fn reserved_words_are_no_names_of_getters() {
    let reserved = "let static implements interface package private protected public await break \
        case catch class const continue debugger default delete do else enum export extends false \
        finally for function if import in instanceof new null return super switch this throw true \
        try typeof var void while with yield";
    for word in reserved.split(' ').filter(|word| !word.is_empty()) {
        let (key, is_name) = make_getter_prop_key(word);
        assert!(matches!(&key, Key::Str(text) if text == word) && !is_name);
    }
    for word in ["id", "async", "of", "get", "undefined", "Class"] {
        let (key, is_name) = make_getter_prop_key(word);
        assert!(matches!(&key, Key::Ident(text) if text == word) && is_name);
    }
    assert!(matches!(make_getter_prop_key("data-x"), (Key::Str(_), false)));
    assert!(matches!(make_prop_key("class"), Key::Ident(_)));
}
