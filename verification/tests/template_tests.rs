use minion::template::render;

fn bindings(pairs: &[(&str, &str)]) -> Vec<(String, String)> {
    let mut v = Vec::new();
    for (k, val) in pairs {
        v.push((k.to_string(), val.to_string()));
    }
    v
}

#[test]
fn test_render_two_bound_placeholders() {
    let b = bindings(&[("a", "x"), ("b", "y")]);
    assert_eq!(render("{{a}}-{{b}}", &b), "x-y");
}

#[test]
fn test_render_unbound_placeholder_left_verbatim() {
    let b = bindings(&[("a", "x")]);
    assert_eq!(render("{{a}}-{{c}}", &b), "x-{{c}}");
}

#[test]
fn test_render_no_bindings_reproduces_template() {
    let b = bindings(&[]);
    assert_eq!(render("plain text {{name}} and {{other}}", &b), "plain text {{name}} and {{other}}");
}

#[test]
fn test_render_replaces_every_occurrence() {
    let b = bindings(&[("app_name", "web")]);
    assert_eq!(render("{{app_name}}:{{app_name}}", &b), "web:web");
}

#[test]
fn test_render_unterminated_placeholder_left_verbatim() {
    let b = bindings(&[("a", "x")]);
    assert_eq!(render("start {{a", &b), "start {{a");
}

#[test]
fn test_render_empty_template() {
    let b = bindings(&[("a", "x")]);
    assert_eq!(render("", &b), "");
}

#[test]
fn test_render_value_not_rescanned() {
    let b = bindings(&[("a", "{{b}}"), ("b", "y")]);
    assert_eq!(render("{{a}}", &b), "{{b}}");
}
