use issue_board::template::{render, TemplateError};

fn vars(pairs: &[(&str, &str)]) -> Vec<(String, String)> {
    pairs.iter().map(|(k, v)| (k.to_string(), v.to_string())).collect()
}

#[test]
fn render_substitutes_a_variable() {
    let vs = vars(&[("name", "World")]);
    let r = render("Hello {{name}}!", &vs).unwrap();
    assert_eq!(r, "Hello World!");
}

#[test]
fn render_substitutes_every_occurrence() {
    let vs = vars(&[("a", "x"), ("b", "y")]);
    let r = render("{{a}}-{{b}}-{{a}}", &vs).unwrap();
    assert_eq!(r, "x-y-x");
}

#[test]
fn render_fails_on_unbound_variable() {
    let vs = vars(&[("present", "v")]);
    let e = render("start {{missing}} end", &vs).unwrap_err();
    let TemplateError::Unbound { name } = e;
    assert_eq!(name, "missing");
}

#[test]
fn render_reports_first_unbound_variable() {
    let vs = vars(&[]);
    let e = render("{{first}} then {{second}}", &vs).unwrap_err();
    let TemplateError::Unbound { name } = e;
    assert_eq!(name, "first");
}

#[test]
fn render_copies_single_braces() {
    let vs = vars(&[]);
    let r = render("query { nodes { title } }", &vs).unwrap();
    assert_eq!(r, "query { nodes { title } }");
}

#[test]
fn render_copies_unclosed_placeholder_text() {
    let vs = vars(&[("x", "v")]);
    let r = render("tail {{x", &vs).unwrap();
    assert_eq!(r, "tail {{x");
}

#[test]
fn render_does_not_rescan_substituted_values() {
    let vs = vars(&[("a", "{{b}}"), ("b", "inner")]);
    let r = render("[{{a}}]", &vs).unwrap();
    assert_eq!(r, "[{{b}}]");
}

#[test]
fn render_first_binding_wins() {
    let vs = vars(&[("k", "one"), ("k", "two")]);
    let r = render("{{k}}", &vs).unwrap();
    assert_eq!(r, "one");
}

#[test]
fn render_empty_template_is_empty() {
    let vs = vars(&[]);
    let r = render("", &vs).unwrap();
    assert_eq!(r, "");
}
