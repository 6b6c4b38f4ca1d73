use issue_board::extract::{extract_issue_page, extract_labels, ExtractError};
use issue_board::json::Json;

fn s(x: &str) -> String {
    x.to_string()
}

fn issue_node(title: Option<&str>, name: Option<&str>, login: Option<&str>) -> Json {
    let mut author_entries = Vec::new();
    if let Some(n) = name {
        author_entries.push((s("name"), Json::Str(s(n))));
    }
    if let Some(l) = login {
        author_entries.push((s("login"), Json::Str(s(l))));
    }
    let mut entries = Vec::new();
    if let Some(t) = title {
        entries.push((s("title"), Json::Str(s(t))));
    }
    entries.push((s("author"), Json::Object(author_entries)));
    Json::Object(entries)
}

fn search_response(nodes: Vec<Json>, cursor: Option<&str>) -> Json {
    let mut search_entries = vec![(s("nodes"), Json::Array(nodes))];
    if let Some(c) = cursor {
        search_entries.push((
            s("pageInfo"),
            Json::Object(vec![(s("endCursor"), Json::Str(s(c)))]),
        ));
    }
    Json::Object(vec![(
        s("data"),
        Json::Object(vec![(s("search"), Json::Object(search_entries))]),
    )])
}

fn label_node(name: Option<&str>, description: Option<&str>, color: Option<&str>) -> Json {
    let mut entries = Vec::new();
    if let Some(n) = name {
        entries.push((s("name"), Json::Str(s(n))));
    }
    if let Some(d) = description {
        entries.push((s("description"), Json::Str(s(d))));
    }
    if let Some(c) = color {
        entries.push((s("color"), Json::Str(s(c))));
    }
    Json::Object(entries)
}

fn label_response(nodes: Vec<Json>) -> Json {
    Json::Object(vec![(
        s("data"),
        Json::Object(vec![(
            s("labels"),
            Json::Object(vec![(s("nodes"), Json::Array(nodes))]),
        )]),
    )])
}

fn missing_field(e: ExtractError) -> String {
    let ExtractError::MissingField { field, .. } = e;
    field
}

#[test]
fn single_node_response_extracts() {
    let resp = search_response(vec![issue_node(Some("Bug"), None, Some("bob"))], Some("abc123"));
    let (issues, page) = extract_issue_page(&resp).unwrap();
    assert_eq!(issues.len(), 1);
    assert_eq!(issues[0].title, "Bug");
    assert_eq!(issues[0].author, "bob");
    assert_eq!(page.end_cursor.as_deref(), Some("abc123"));
}

#[test]
fn display_name_is_preferred_over_login() {
    let resp = search_response(
        vec![issue_node(Some("Bug"), Some("Robert"), Some("bob"))],
        Some("c"),
    );
    let (issues, _) = extract_issue_page(&resp).unwrap();
    assert_eq!(issues[0].author, "Robert");
}

#[test]
fn login_is_the_fallback_author() {
    let resp = search_response(vec![issue_node(Some("Bug"), None, Some("bob"))], Some("c"));
    let (issues, _) = extract_issue_page(&resp).unwrap();
    assert_eq!(issues[0].author, "bob");
}

#[test]
fn missing_author_fails_extraction() {
    let resp = search_response(vec![issue_node(Some("Bug"), None, None)], Some("c"));
    let e = extract_issue_page(&resp).unwrap_err();
    assert_eq!(missing_field(e), "author");
}

#[test]
fn one_node_without_title_fails_the_whole_page() {
    let resp = search_response(
        vec![
            issue_node(Some("First"), None, Some("a")),
            issue_node(None, None, Some("b")),
            issue_node(Some("Third"), None, Some("c")),
        ],
        Some("c"),
    );
    let e = extract_issue_page(&resp).unwrap_err();
    assert_eq!(missing_field(e), "title");
}

#[test]
fn issues_keep_the_source_array_order() {
    let resp = search_response(
        vec![
            issue_node(Some("one"), None, Some("u1")),
            issue_node(Some("two"), None, Some("u2")),
            issue_node(Some("three"), None, Some("u3")),
        ],
        Some("c"),
    );
    let (issues, _) = extract_issue_page(&resp).unwrap();
    let titles: Vec<&str> = issues.iter().map(|i| i.title.as_str()).collect();
    assert_eq!(titles, ["one", "two", "three"]);
}

#[test]
fn missing_page_info_is_reported() {
    let resp = search_response(vec![issue_node(Some("Bug"), None, Some("bob"))], None);
    let e = extract_issue_page(&resp).unwrap_err();
    assert_eq!(missing_field(e), "pageInfo");
}

#[test]
fn missing_end_cursor_is_reported() {
    let search = Json::Object(vec![
        (s("nodes"), Json::Array(Vec::new())),
        (s("pageInfo"), Json::Object(Vec::new())),
    ]);
    let resp = Json::Object(vec![(
        s("data"),
        Json::Object(vec![(s("search"), search)]),
    )]);
    let e = extract_issue_page(&resp).unwrap_err();
    assert_eq!(missing_field(e), "endCursor");
}

#[test]
fn missing_node_path_is_reported_as_issues() {
    let resp = Json::Object(vec![(s("data"), Json::Object(Vec::new()))]);
    let e = extract_issue_page(&resp).unwrap_err();
    assert_eq!(missing_field(e), "issues");
}

#[test]
fn non_array_nodes_are_reported_as_issues() {
    let search = Json::Object(vec![(s("nodes"), Json::Str(s("oops")))]);
    let resp = Json::Object(vec![(
        s("data"),
        Json::Object(vec![(s("search"), search)]),
    )]);
    let e = extract_issue_page(&resp).unwrap_err();
    assert_eq!(missing_field(e), "issues");
}

#[test]
fn the_error_carries_the_serialized_response() {
    let resp = Json::Object(vec![(s("data"), Json::Object(Vec::new()))]);
    let e = extract_issue_page(&resp).unwrap_err();
    let ExtractError::MissingField { body, .. } = e;
    assert_eq!(body, resp.to_text());
}

#[test]
fn empty_node_array_extracts_no_issues() {
    let resp = search_response(Vec::new(), Some("end"));
    let (issues, page) = extract_issue_page(&resp).unwrap();
    assert!(issues.is_empty());
    assert_eq!(page.end_cursor.as_deref(), Some("end"));
}

#[test]
fn labels_extract_in_order() {
    let resp = label_response(vec![
        label_node(Some("bug"), Some("broken"), Some("ff0000")),
        label_node(Some("docs"), Some("writing"), Some("00ff00")),
    ]);
    let labels = extract_labels(&resp).unwrap();
    assert_eq!(labels.len(), 2);
    assert_eq!(labels[0].name, "bug");
    assert_eq!(labels[0].description, "broken");
    assert_eq!(labels[0].color, "ff0000");
    assert_eq!(labels[1].name, "docs");
}

#[test]
fn label_without_color_fails_the_whole_batch() {
    let resp = label_response(vec![
        label_node(Some("bug"), Some("broken"), Some("ff0000")),
        label_node(Some("docs"), Some("writing"), None),
    ]);
    let e = extract_labels(&resp).unwrap_err();
    assert_eq!(missing_field(e), "color");
}

#[test]
fn label_without_name_is_reported_first() {
    let resp = label_response(vec![label_node(None, None, None)]);
    let e = extract_labels(&resp).unwrap_err();
    assert_eq!(missing_field(e), "name");
}

#[test]
fn missing_label_path_is_reported_as_labels() {
    let resp = Json::Object(vec![(s("data"), Json::Object(Vec::new()))]);
    let e = extract_labels(&resp).unwrap_err();
    assert_eq!(missing_field(e), "labels");
}
