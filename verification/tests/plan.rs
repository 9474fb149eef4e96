use oxc_span::SourceType;
use solid_jsx::interface::{JsTransformOptions, RefreshRuntime};
use solid_jsx::options::{GenerateMode, TransformOptions};
use solid_jsx::plan::{plan_transform, read_source, transform, transform_jsx, Pass};

const DASH: &str = "__DASH__";

fn names(passes: &[Pass]) -> Vec<&str> {
    passes
        .iter()
        .map(|pass| match pass {
            Pass::Solid => "solid",
            Pass::Ssr => "ssr",
            Pass::Refresh(_) => "refresh",
        })
        .collect()
}

#[test]
fn a_source_is_read_with_its_hyphens_replaced() {
    let read = read_source("const x = <m.a-b />;", SourceType::tsx(), None, DASH);
    assert_eq!(read.source, "const x = <m.a__DASH__b />;");
    assert!(read.transforms);
}

#[test]
fn the_comments_of_a_source_decide() {
    let source = "/** @jsxImportSource solid-js */\nconst x = <m.a-b />; // done";
    let read = read_source(source, SourceType::tsx(), Some("solid-js"), DASH);
    assert_eq!(read.source, "/** @jsxImportSource solid-js */\nconst x = <m.a__DASH__b />; // done");
    assert!(read.transforms);
    assert!(!read_source(source, SourceType::tsx(), Some("react"), DASH).transforms);
    let plain = "const text = \"@jsxImportSource solid-js\"; // none";
    assert!(!read_source(plain, SourceType::tsx(), Some("solid-js"), DASH).transforms);
    assert!(read_source(plain, SourceType::tsx(), None, DASH).transforms);
}

#[test]
fn without_options_the_defaults_hold() {
    let (options, plan) = transform("const x = <div />;", None, DASH);
    assert!(matches!(options.generate, GenerateMode::Dom));
    assert_eq!(options.module_name, "solid-js/web");
    assert_eq!(plan.source, "const x = <div />;");
    assert_eq!(names(&plan.passes), vec!["solid"]);
    assert_eq!(plan.map, None);
}

#[test]
fn given_options_are_kept() {
    let given = TransformOptions {
        generate: GenerateMode::Universal,
        source_map: true,
        filename: "a.tsx",
        ..TransformOptions::solid_defaults()
    };
    let (options, plan) = transform("<a />", Some(given), DASH);
    assert!(matches!(options.generate, GenerateMode::Universal));
    assert_eq!(names(&plan.passes), vec!["solid"]);
    assert_eq!(plan.map, Some("a.tsx".to_string()));
}

#[test]
fn a_source_that_is_not_asked_for_has_no_passes() {
    let options = TransformOptions {
        require_import_source: Some("solid-js"),
        hmr: true,
        source_map: true,
        ..TransformOptions::solid_defaults()
    };
    let plan = plan_transform("<m.a-b />", &options, DASH);
    assert_eq!(plan.source, "<m.a__DASH__b />");
    assert!(plan.passes.is_empty());
    assert_eq!(plan.map, Some(options.filename.to_string()));
    let plan = plan_transform("/* @jsxImportSource solid-js */ <a />", &options, DASH);
    assert_eq!(names(&plan.passes), vec!["solid", "refresh"]);
}

#[test]
fn a_script_plans_by_its_own_options() {
    let given = Some(JsTransformOptions {
        generate: Some("ssr".to_string()),
        hmr: Some(true),
        hmr_bundler: Some("vite".to_string()),
        hmr_granular: Some(false),
        hmr_fix_render: Some(false),
        filename: Some("b.tsx".to_string()),
        ..JsTransformOptions::default()
    });
    let (options, plan) = transform_jsx("<a />", &given, DASH);
    assert!(matches!(options.generate, GenerateMode::Ssr));
    assert_eq!(names(&plan.passes), vec!["ssr", "refresh"]);
    match &plan.passes[1] {
        Pass::Refresh(told) => {
            assert!(!told.granular && told.jsx && !told.fix_render);
            assert_eq!(told.bundler, RefreshRuntime::Vite);
            assert_eq!(told.filename, "b.tsx");
        }
        _ => panic!("no refresh"),
    }
    let nothing = None;
    let (options, plan) = transform_jsx("<a />", &nothing, DASH);
    assert!(matches!(options.generate, GenerateMode::Dom));
    assert_eq!(options.filename, "input.jsx");
    assert_eq!(names(&plan.passes), vec!["solid"]);
}
