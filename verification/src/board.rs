//! The board data model: issues, labels, columns, and the board itself.
//! These are plain value records; the surrounding application renders them
//! and performs no validation of its own.

use vstd::prelude::*;

verus! {

/// A single open issue: a title and the resolved author name.
#[derive(Clone, Debug)]
pub struct Issue {
    pub title: String,
    pub author: String,
}

/// A repository label; all three fields are mandatory.
#[derive(Clone, Debug)]
pub struct IssueLabel {
    pub name: String,
    pub description: String,
    pub color: String,
}

/// Configuration of one board column: the label names it filters by.
#[derive(Clone, Debug)]
pub struct IssueColumnConfig {
    pub labels: Vec<String>,
}

/// One column of the board: its configuration and the issues it shows.
#[derive(Clone, Debug)]
pub struct IssueColumn {
    pub config: IssueColumnConfig,
    pub config_mode: bool,
    pub issues: Vec<Issue>,
}

/// The whole board: a repository identity, its labels, and the columns.
#[derive(Clone, Debug)]
pub struct IssueBoard {
    pub repo_owner: String,
    pub repo_name: String,
    pub labels: Vec<IssueLabel>,
    pub columns: Vec<IssueColumn>,
}

impl IssueColumnConfig {
    /// A fresh configuration filters by no labels.
    pub fn new() -> (c: IssueColumnConfig)
        ensures
            c.labels@.len() == 0,
    {
        IssueColumnConfig { labels: Vec::new() }
    }
}

impl IssueColumn {
    /// A fresh column starts in configuration mode with no issues.
    pub fn new() -> (c: IssueColumn)
        ensures
            c.config.labels@.len() == 0,
            c.config_mode,
            c.issues@.len() == 0,
    {
        IssueColumn { config: IssueColumnConfig::new(), config_mode: true, issues: Vec::new() }
    }
}

impl IssueBoard {
    /// Appends one fetched page of issues as a new column: pages are kept
    /// as independent column units, never merged into one flat list.
    pub fn add_column(&mut self, issues: Vec<Issue>)
        ensures
            final(self).columns@.len() == old(self).columns@.len() + 1,
            final(self).columns@.subrange(0, old(self).columns@.len() as int) == old(
                self,
            ).columns@,
            final(self).columns@.last().issues@ == issues@,
            final(self).columns@.last().config_mode,
            final(self).columns@.last().config.labels@.len() == 0,
            final(self).repo_owner@ == old(self).repo_owner@,
            final(self).repo_name@ == old(self).repo_name@,
            final(self).labels@ == old(self).labels@,
    {
        let mut column = IssueColumn::new();
        column.issues = issues;
        self.columns.push(column);
        proof {
            assert(self.columns@.subrange(0, self.columns@.len() - 1) =~= old(self).columns@);
        }
    }

    /// A fresh board points at the default repository and holds nothing yet.
    pub fn new() -> (b: IssueBoard)
        ensures
            b.repo_owner@ == "xi-editor"@,
            b.repo_name@ == "druid"@,
            b.labels@.len() == 0,
            b.columns@.len() == 0,
    {
        IssueBoard {
            repo_owner: "xi-editor".to_owned(),
            repo_name: "druid".to_owned(),
            labels: Vec::new(),
            columns: Vec::new(),
        }
    }
}

} // verus!
