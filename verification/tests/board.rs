use issue_board::board::{Issue, IssueBoard, IssueColumn, IssueColumnConfig};

fn s(x: &str) -> String {
    x.to_string()
}

#[test]
fn a_fresh_board_points_at_the_default_repository() {
    let b = IssueBoard::new();
    assert_eq!(b.repo_owner, "xi-editor");
    assert_eq!(b.repo_name, "druid");
    assert!(b.labels.is_empty());
    assert!(b.columns.is_empty());
}

#[test]
fn a_fresh_column_starts_in_configuration_mode() {
    let c = IssueColumn::new();
    assert!(c.config_mode);
    assert!(c.issues.is_empty());
    assert!(c.config.labels.is_empty());
}

#[test]
fn a_fresh_column_config_filters_nothing() {
    let c = IssueColumnConfig::new();
    assert!(c.labels.is_empty());
}

#[test]
fn each_fetched_page_becomes_its_own_column() {
    let mut b = IssueBoard::new();
    b.add_column(vec![Issue { title: s("one"), author: s("u1") }]);
    b.add_column(vec![
        Issue { title: s("two"), author: s("u2") },
        Issue { title: s("three"), author: s("u3") },
    ]);
    assert_eq!(b.columns.len(), 2);
    assert_eq!(b.columns[0].issues.len(), 1);
    assert_eq!(b.columns[0].issues[0].title, "one");
    assert_eq!(b.columns[1].issues.len(), 2);
    assert_eq!(b.columns[1].issues[1].title, "three");
}
