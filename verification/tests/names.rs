use solid_jsx::ir::{helper_local_name, template_var_name};

#[test]
fn template_variables_are_numbered_from_the_second() {
    assert_eq!(template_var_name(0), "_tmpl$");
    assert_eq!(template_var_name(1), "_tmpl$2");
    assert_eq!(helper_local_name("insert"), "_$insert");
}
