use oxc_span::SourceType;
use solid_jsx::outside::{Diagnostic, Report};
use solid_jsx::recover::{recover_source, rewrite_hyphens, JSX_MEMBER_HYPHEN_ERROR};

fn complaint(message: &str, labels: Vec<(usize, usize)>) -> Report {
    Report {
        panicked: true,
        diagnostics: vec![Diagnostic { message: message.to_string(), labels }],
        comments: vec![],
    }
}

#[test]
fn a_source_that_parses_stays() {
    let source = "const x = <div a-b=\"c-d\" />;";
    assert_eq!(recover_source(source, SourceType::tsx(), "__DASH__"), source);
}

#[test]
fn a_hyphen_in_a_component_is_replaced() {
    let source = "const x = <module.a-b />;";
    assert_eq!(
        recover_source(source, SourceType::tsx(), "__DASH__"),
        "const x = <module.a__DASH__b />;"
    );
}

#[test]
fn several_hyphens_take_several_rounds() {
    let source = "const x = <><m.a-b-c /><m.d-e /></>;";
    assert_eq!(
        recover_source(source, SourceType::tsx(), "$D$"),
        "const x = <><m.a$D$b$D$c /><m.d$D$e /></>;"
    );
}

#[test]
fn another_error_is_left_alone() {
    let source = "const x = ;";
    assert_eq!(recover_source(source, SourceType::tsx(), "__DASH__"), source);
}

#[test]
fn at_most_eight_rounds_are_made() {
    let mut source = String::from("const x = <>");
    let mut mended = String::from("const x = <>");
    for i in 0..10 {
        source.push_str("<m.a-b />");
        mended.push_str(if i < 8 { "<m.a_b />" } else { "<m.a-b />" });
    }
    source.push_str("</>;");
    mended.push_str("</>;");
    assert_eq!(recover_source(&source, SourceType::tsx(), "_"), mended);
}

#[test]
fn labels_are_taken_in_their_order() {
    let report = Report {
        panicked: true,
        diagnostics: vec![Diagnostic {
            message: format!("x: {}", JSX_MEMBER_HYPHEN_ERROR),
            labels: vec![(4, 3), (0, 3)],
        }],
        comments: vec![],
    };
    assert_eq!(rewrite_hyphens("a-b c-d e-f", &report, "+"), Some("a+b c+d e-f".to_string()));
}

#[test]
fn overlapping_labels_count_once() {
    let report = complaint(JSX_MEMBER_HYPHEN_ERROR, vec![(0, 3), (0, 3), (2, 4), (4, 3)]);
    assert_eq!(rewrite_hyphens("a-b c-d", &report, "+"), Some("a+b c+d".to_string()));
    let report = complaint(JSX_MEMBER_HYPHEN_ERROR, vec![(0, 3), (2, 4)]);
    assert_eq!(rewrite_hyphens("a-b c-d", &report, "+"), Some("a+b c-d".to_string()));
}

#[test]
fn labels_that_do_not_fit_are_passed_over() {
    assert_eq!(rewrite_hyphens("a-b", &complaint("other", vec![(0, 3)]), "+"), None);
    assert_eq!(rewrite_hyphens("a-b", &complaint(JSX_MEMBER_HYPHEN_ERROR, vec![]), "+"), None);
    let labels = vec![(0, 0), (0, 4), (1, usize::MAX), (0, 1)];
    assert_eq!(rewrite_hyphens("a-b", &complaint(JSX_MEMBER_HYPHEN_ERROR, labels), "+"), None);
}

#[test]
fn offsets_count_bytes() {
    let report = complaint(JSX_MEMBER_HYPHEN_ERROR, vec![(3, 3)]);
    assert_eq!(rewrite_hyphens("\u{e9} a-b", &report, "+"), Some("\u{e9} a+b".to_string()));
    let report = complaint(JSX_MEMBER_HYPHEN_ERROR, vec![(1, 5)]);
    assert_eq!(rewrite_hyphens("\u{e9} a-b", &report, "+"), None);
}
