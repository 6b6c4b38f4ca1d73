use issue_board::backend::{
    labels_outcome, query_body, query_outcome, Backend, BackendError, BackendOp, Fixture, Github,
    GithubPage, Query, Repository, TransportError,
};
use issue_board::board::{Issue, IssueLabel};
use issue_board::extract::extract_issue_page;
use issue_board::json::Json;

fn s(x: &str) -> String {
    x.to_string()
}

fn repo(owner: &str, name: &str) -> Repository {
    Repository { owner: s(owner), name: s(name) }
}

fn search_response_one(title: &str, login: &str, cursor: &str) -> Json {
    let author = Json::Object(vec![(s("login"), Json::Str(s(login)))]);
    let node = Json::Object(vec![
        (s("title"), Json::Str(s(title))),
        (s("author"), author),
    ]);
    let search = Json::Object(vec![
        (s("nodes"), Json::Array(vec![node])),
        (
            s("pageInfo"),
            Json::Object(vec![(s("endCursor"), Json::Str(s(cursor)))]),
        ),
    ]);
    Json::Object(vec![(
        s("data"),
        Json::Object(vec![(s("search"), search)]),
    )])
}

#[test]
fn first_query_document_has_filter_and_null_cursor() {
    let gh = Github::new();
    let q = Query { repo: repo("alice", "widgets"), page: GithubPage::default() };
    let doc = gh.query_document(&q);
    assert!(doc.contains("user:alice repo:widgets is:issue state:open"));
    assert!(doc.contains("null"));
}

#[test]
fn the_rendered_issue_document_is_exact() {
    let gh = Github::new();
    let q = Query { repo: repo("alice", "widgets"), page: GithubPage::default() };
    let doc = gh.query_document(&q);
    let expected = "query {\n  search(query: \"user:alice repo:widgets is:issue state:open\", type: ISSUE, first: 25, after: null) {\n    nodes {\n      ... on Issue {\n        title\n        author {\n          login\n          ... on User {\n            name\n          }\n        }\n      }\n    }\n    pageInfo {\n      endCursor\n    }\n  }\n}\n";
    assert_eq!(doc, expected);
}

#[test]
fn the_rendered_label_document_is_exact() {
    let gh = Github::new();
    let doc = gh.labels_document(&repo("alice", "widgets"));
    let expected = "query {\n  repository(owner: \"alice\", name: \"widgets\") {\n    labels(first: 100) {\n      nodes {\n        name\n        description\n        color\n      }\n    }\n  }\n}\n";
    assert_eq!(doc, expected);
}

#[test]
fn cursor_renders_quoted() {
    let gh = Github::new();
    let q = Query {
        repo: repo("alice", "widgets"),
        page: GithubPage { end_cursor: Some(s("abc123")) },
    };
    let doc = gh.query_document(&q);
    assert!(doc.contains("\"abc123\""));
    assert!(!doc.contains("null"));
}

#[test]
fn extracted_cursor_round_trips_into_the_next_document() {
    let resp = search_response_one("Bug", "bob", "abc123");
    let (_, next_page) = extract_issue_page(&resp).unwrap();
    let gh = Github::new();
    let q = Query { repo: repo("alice", "widgets"), page: next_page };
    let doc = gh.query_document(&q);
    assert!(doc.contains("\"abc123\""));
}

#[test]
fn sequential_documents_differ_only_in_the_cursor() {
    let gh = Github::new();
    let first = gh.query_document(&Query {
        repo: repo("alice", "widgets"),
        page: GithubPage::default(),
    });
    let second = gh.query_document(&Query {
        repo: repo("alice", "widgets"),
        page: GithubPage { end_cursor: Some(s("abc123")) },
    });
    let at = first.find("null").expect("the first document renders the null token");
    let head = &first[..at];
    let tail = &first[at + "null".len()..];
    assert_eq!(second, format!("{}\"abc123\"{}", head, tail));
}

#[test]
fn labels_document_names_owner_and_repository() {
    let gh = Github::new();
    let doc = gh.labels_document(&repo("alice", "widgets"));
    assert!(doc.contains("\"alice\""));
    assert!(doc.contains("\"widgets\""));
    assert!(doc.contains("labels"));
}

#[test]
fn the_wire_body_is_valid_json() {
    let gh = Github::new();
    let q = Query { repo: repo("alice", "widgets"), page: GithubPage::default() };
    let document = gh.query_document(&q);
    let body = query_body(gh.query_document(&q));
    let parsed: serde_json::Value =
        serde_json::from_str(&body).expect("the wire body must parse as JSON");
    assert_eq!(parsed["query"].as_str().unwrap(), document);
}

#[test]
fn query_body_wraps_the_document() {
    let body = query_body(s("query { a }"));
    assert_eq!(body, "{\"query\":\"query { a }\"}");
}

#[test]
fn query_body_escapes_quotes() {
    let body = query_body(s("say \"hi\""));
    assert_eq!(body, "{\"query\":\"say \\\"hi\\\"\"}");
}

#[test]
fn default_page_has_no_cursor() {
    assert!(GithubPage::default().end_cursor.is_none());
}

#[test]
fn query_outcome_extracts_a_good_response() {
    let resp = search_response_one("Bug", "bob", "abc123");
    let r = query_outcome(&repo("alice", "widgets"), Ok(resp)).unwrap();
    assert_eq!(r.issues.len(), 1);
    assert_eq!(r.issues[0].title, "Bug");
    assert_eq!(r.issues[0].author, "bob");
    assert_eq!(r.next_page.end_cursor.as_deref(), Some("abc123"));
}

#[test]
fn query_outcome_names_the_failing_operation() {
    let bad = Json::Object(vec![(s("data"), Json::Object(Vec::new()))]);
    let e = query_outcome(&repo("alice", "widgets"), Ok(bad)).unwrap_err();
    match e {
        BackendError::Extract { op, repo: rp, .. } => {
            assert!(matches!(op, BackendOp::Query));
            assert_eq!(rp.owner, "alice");
            assert_eq!(rp.name, "widgets");
        },
        _ => panic!("expected an extraction error"),
    }
}

#[test]
fn query_outcome_surfaces_transport_failures() {
    let t = TransportError::Network { detail: s("connection refused") };
    let e = query_outcome(&repo("alice", "widgets"), Err(t)).unwrap_err();
    match e {
        BackendError::Transport { op, err, .. } => {
            assert!(matches!(op, BackendOp::Query));
            match err {
                TransportError::Network { detail } => assert_eq!(detail, "connection refused"),
                _ => panic!("expected a network error"),
            }
        },
        _ => panic!("expected a transport error"),
    }
}

#[test]
fn labels_outcome_extracts_a_good_response() {
    let node = Json::Object(vec![
        (s("name"), Json::Str(s("bug"))),
        (s("description"), Json::Str(s("broken"))),
        (s("color"), Json::Str(s("ff0000"))),
    ]);
    let labels = Json::Object(vec![(s("nodes"), Json::Array(vec![node]))]);
    let resp = Json::Object(vec![(
        s("data"),
        Json::Object(vec![(s("labels"), labels)]),
    )]);
    let r = labels_outcome(&repo("alice", "widgets"), Ok(resp)).unwrap();
    assert_eq!(r.len(), 1);
    assert_eq!(r[0].color, "ff0000");
}

#[test]
fn labels_outcome_surfaces_invalid_bodies() {
    let t = TransportError::InvalidBody { detail: s("not json") };
    let e = labels_outcome(&repo("alice", "widgets"), Err(t)).unwrap_err();
    match e {
        BackendError::Transport { op, err, .. } => {
            assert!(matches!(op, BackendOp::Labels));
            assert!(matches!(err, TransportError::InvalidBody { .. }));
        },
        _ => panic!("expected a transport error"),
    }
}

#[test]
fn fixture_backend_returns_canned_results() {
    let fixture = Fixture {
        issues: vec![Issue { title: s("Bug"), author: s("bob") }],
        cursor: s("next"),
        labels: vec![IssueLabel { name: s("bug"), description: s("d"), color: s("f00") }],
    };
    let q = Query { repo: repo("alice", "widgets"), page: GithubPage::default() };
    let r = fixture.query(&q).unwrap();
    assert_eq!(r.issues.len(), 1);
    assert_eq!(r.issues[0].title, "Bug");
    assert_eq!(r.next_page.end_cursor.as_deref(), Some("next"));
    let ls = fixture.labels(&repo("alice", "widgets")).unwrap();
    assert_eq!(ls.len(), 1);
    assert_eq!(ls[0].name, "bug");
}
