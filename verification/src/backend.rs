//! The backend facade: repository identity, pagination cursor, the query
//! document builders, and the composition of rendering, transport outcome
//! and extraction into the two operations `query` and `labels`.
//!
//! The two template documents are fixed text injected at construction
//! time. Because the facade always binds exactly the variables they
//! reference, rendering is proved to succeed for every repository and
//! cursor.

use vstd::pervasive::unreached;
use vstd::prelude::*;

use crate::board::{Issue, IssueLabel};
use crate::extract::{
    extract_issue_page, extract_labels, is_missing, issue_page_of, issues_match, labels_match,
    labels_of, page_has_cursor, ExtractError,
};
use crate::json::{escape_char, escape_str, json_entry_text, json_obj_text, json_text, Json};
use crate::template::{
    brace_free, contains_seq, lemma_contains_middle, lemma_render_lit, lemma_render_var, lit_ok,
    open_braces, close_braces, render, render_spec, vars_get, TemplateError,
};

verus! {

/// A GitHub repository identity, supplied by the caller and never empty.
#[derive(Debug)]
pub struct Repository {
    pub owner: String,
    pub name: String,
}

impl Repository {
    /// A repository identity is never empty.
    pub open spec fn well_formed(&self) -> bool {
        self.owner@.len() > 0 && self.name@.len() > 0
    }

    /// A fresh record with the same owner and name.
    pub fn duplicate(&self) -> (r: Repository)
        ensures
            r.owner@ == self.owner@,
            r.name@ == self.name@,
    {
        Repository { owner: self.owner.clone(), name: self.name.clone() }
    }
}

/// Whether two repository records name the same repository.
pub open spec fn repo_matches(a: Repository, b: Repository) -> bool {
    a.owner@ == b.owner@ && a.name@ == b.name@
}

/// An opaque pagination cursor. `None` means "start from the beginning";
/// once obtained from a response it is only ever handed back verbatim to
/// the next query.
#[derive(Debug)]
pub struct GithubPage {
    pub end_cursor: Option<String>,
}

impl Default for GithubPage {
    /// The default page starts from the beginning.
    fn default() -> (p: GithubPage)
        ensures
            p.end_cursor is None,
    {
        GithubPage { end_cursor: None }
    }
}

/// One query request: the repository and the page to fetch.
#[derive(Debug)]
pub struct Query {
    pub repo: Repository,
    pub page: GithubPage,
}

/// What one `query` call produces: the page's issues in response order and
/// the cursor for the next call.
#[derive(Debug)]
pub struct QueryResult {
    pub issues: Vec<Issue>,
    pub next_page: GithubPage,
}

/// A transport-level failure: the request never produced a JSON response.
#[derive(Debug)]
pub enum TransportError {
    /// Connectivity, TLS or timeout failure; recoverable by caller-level
    /// retry. The core never retries.
    Network { detail: String },
    /// The response body was not parseable as JSON; fatal for the call.
    InvalidBody { detail: String },
}

/// Which backend operation failed.
#[derive(Debug)]
pub enum BackendOp {
    Query,
    Labels,
}

/// The failure union surfaced to callers, carrying which operation and
/// which repository failed.
#[derive(Debug)]
pub enum BackendError {
    Template { op: BackendOp, repo: Repository, err: TemplateError },
    Transport { op: BackendOp, repo: Repository, err: TransportError },
    Extract { op: BackendOp, repo: Repository, err: ExtractError },
}

/// The capability set of a backend: fetch one page of issues, fetch the
/// full label set. A concrete variant implements both; callers depend on
/// nothing else.
pub trait Backend {
    /// Fetches one page of open issues for the queried repository.
    fn query(&self, query: &Query) -> Result<QueryResult, BackendError>;

    /// Fetches the full label set of the repository.
    fn labels(&self, repo: &Repository) -> Result<Vec<IssueLabel>, BackendError>;
}

/// The issue-search document up to its `search` placeholder.
pub const SEARCH_HEAD: &'static str = "query {\n  search(query: \"";

/// The issue-search document between its `search` and `page` placeholders.
pub const SEARCH_MID: &'static str = "\", type: ISSUE, first: 25, after: ";

/// The issue-search document after its `page` placeholder.
pub const SEARCH_TAIL: &'static str = ") {\n    nodes {\n      ... on Issue {\n        title\n        author {\n          login\n          ... on User {\n            name\n          }\n        }\n      }\n    }\n    pageInfo {\n      endCursor\n    }\n  }\n}\n";

/// The label-list document up to its `owner` placeholder.
pub const LABEL_HEAD: &'static str = "query {\n  repository(owner: \"";

/// The label-list document between its `owner` and `repo` placeholders.
pub const LABEL_MID: &'static str = "\", name: \"";

/// The label-list document after its `repo` placeholder.
pub const LABEL_TAIL: &'static str = "\") {\n    labels(first: 100) {\n      nodes {\n        name\n        description\n        color\n      }\n    }\n  }\n}\n";

/// The issue-search template document, with its two placeholders.
pub open spec fn search_template() -> Seq<char> {
    SEARCH_HEAD@ + "{{search}}"@ + SEARCH_MID@ + "{{page}}"@ + SEARCH_TAIL@
}

/// The label-list template document, with its two placeholders.
pub open spec fn label_template() -> Seq<char> {
    LABEL_HEAD@ + "{{owner}}"@ + LABEL_MID@ + "{{repo}}"@ + LABEL_TAIL@
}

/// The search filter string for a repository's open issues.
pub open spec fn search_filter_spec(owner: Seq<char>, name: Seq<char>) -> Seq<char> {
    "user:"@ + owner + " repo:"@ + name + " is:issue state:open"@
}

/// How a page renders into the query document: a quoted cursor, or the
/// literal `null` token for the default page.
pub open spec fn cursor_token_spec(page: GithubPage) -> Seq<char> {
    match page.end_cursor {
        Some(c) => seq!['"'] + c@ + seq!['"'],
        None => "null"@,
    }
}

/// The rendered issue-search document up to the cursor token: all that
/// stands before it depends on the repository alone.
pub open spec fn issue_document_prefix(repo: Repository) -> Seq<char> {
    SEARCH_HEAD@ + search_filter_spec(repo.owner@, repo.name@) + SEARCH_MID@
}

/// The complete rendered issue-search document for one query call.
pub open spec fn issue_document_spec(repo: Repository, page: GithubPage) -> Seq<char> {
    issue_document_prefix(repo) + cursor_token_spec(page) + SEARCH_TAIL@
}

/// The complete rendered label-list document for a repository.
pub open spec fn label_document_spec(repo: Repository) -> Seq<char> {
    LABEL_HEAD@ + repo.owner@ + LABEL_MID@ + repo.name@ + LABEL_TAIL@
}

/// Rendering the issue-search template with its two variables bound always
/// succeeds and yields the issue document shape.
proof fn lemma_search_render(vs: Seq<(String, String)>, filter: Seq<char>, token: Seq<char>)
    requires
        vs.len() == 2,
        vs[0].0@ == "search"@,
        vs[0].1@ == filter,
        vs[1].0@ == "page"@,
        vs[1].1@ == token,
    ensures
        render_spec(search_template(), vs) == Ok::<Seq<char>, Seq<char>>(
            SEARCH_HEAD@ + filter + SEARCH_MID@ + token + SEARCH_TAIL@,
        ),
{
    reveal_strlit("query {\n  search(query: \"");
    reveal_strlit("\", type: ISSUE, first: 25, after: ");
    reveal_strlit(") {\n    nodes {\n      ... on Issue {\n        title\n        author {\n          login\n          ... on User {\n            name\n          }\n        }\n      }\n    }\n    pageInfo {\n      endCursor\n    }\n  }\n}\n");
    reveal_strlit("{{search}}");
    reveal_strlit("{{page}}");
    reveal_strlit("search");
    reveal_strlit("page");
    assert(brace_free("search"@));
    assert(brace_free("page"@));
    assert(vs.drop_first()[0] == vs[1]);
    assert("page"@ != "search"@);
    assert(vars_get(vs, "search"@) == Some(filter));
    assert(vs.drop_first().len() == 1);
    assert(vars_get(vs.drop_first(), "page"@) == Some(token));
    assert(vars_get(vs, "page"@) == Some(token));
    assert(lit_ok(SEARCH_HEAD@));
    assert(lit_ok(SEARCH_MID@));
    assert(lit_ok(SEARCH_TAIL@));
    assert(SEARCH_HEAD@[SEARCH_HEAD@.len() - 1] != '{');
    assert(SEARCH_MID@[SEARCH_MID@.len() - 1] != '{');
    // The tail renders as literal text.
    lemma_render_lit(SEARCH_TAIL@, Seq::<char>::empty(), vs);
    assert(SEARCH_TAIL@ + Seq::<char>::empty() =~= SEARCH_TAIL@);
    assert(render_spec(SEARCH_TAIL@, vs) == Ok::<Seq<char>, Seq<char>>(SEARCH_TAIL@));
    // `{{page}}` substitutes the cursor token.
    lemma_render_var("page"@, token, SEARCH_TAIL@, vs);
    let s2 = "{{page}}"@ + SEARCH_TAIL@;
    assert(s2 =~= open_braces() + "page"@ + close_braces() + SEARCH_TAIL@);
    assert(render_spec(s2, vs) == Ok::<Seq<char>, Seq<char>>(token + SEARCH_TAIL@));
    // The middle renders as literal text.
    let s3 = SEARCH_MID@ + s2;
    lemma_render_lit(SEARCH_MID@, s2, vs);
    assert(render_spec(s3, vs) == Ok::<Seq<char>, Seq<char>>(SEARCH_MID@ + (token + SEARCH_TAIL@)));
    // `{{search}}` substitutes the filter.
    lemma_render_var("search"@, filter, s3, vs);
    let s4 = "{{search}}"@ + s3;
    assert(s4 =~= open_braces() + "search"@ + close_braces() + s3);
    assert(render_spec(s4, vs) == Ok::<Seq<char>, Seq<char>>(
        filter + (SEARCH_MID@ + (token + SEARCH_TAIL@)),
    ));
    // The head renders as literal text.
    lemma_render_lit(SEARCH_HEAD@, s4, vs);
    assert(search_template() =~= SEARCH_HEAD@ + s4);
    assert(render_spec(search_template(), vs) == Ok::<Seq<char>, Seq<char>>(
        SEARCH_HEAD@ + (filter + (SEARCH_MID@ + (token + SEARCH_TAIL@))),
    ));
    assert(SEARCH_HEAD@ + (filter + (SEARCH_MID@ + (token + SEARCH_TAIL@))) =~= SEARCH_HEAD@
        + filter + SEARCH_MID@ + token + SEARCH_TAIL@);
}

/// Rendering the label-list template with its two variables bound always
/// succeeds and yields the label document shape.
proof fn lemma_label_render(vs: Seq<(String, String)>, owner: Seq<char>, name: Seq<char>)
    requires
        vs.len() == 2,
        vs[0].0@ == "owner"@,
        vs[0].1@ == owner,
        vs[1].0@ == "repo"@,
        vs[1].1@ == name,
    ensures
        render_spec(label_template(), vs) == Ok::<Seq<char>, Seq<char>>(
            LABEL_HEAD@ + owner + LABEL_MID@ + name + LABEL_TAIL@,
        ),
{
    reveal_strlit("query {\n  repository(owner: \"");
    reveal_strlit("\", name: \"");
    reveal_strlit("\") {\n    labels(first: 100) {\n      nodes {\n        name\n        description\n        color\n      }\n    }\n  }\n}\n");
    reveal_strlit("{{owner}}");
    reveal_strlit("{{repo}}");
    reveal_strlit("owner");
    reveal_strlit("repo");
    assert(brace_free("owner"@));
    assert(brace_free("repo"@));
    assert(vs.drop_first()[0] == vs[1]);
    assert("repo"@ != "owner"@);
    assert(vars_get(vs, "owner"@) == Some(owner));
    assert(vs.drop_first().len() == 1);
    assert(vars_get(vs.drop_first(), "repo"@) == Some(name));
    assert(vars_get(vs, "repo"@) == Some(name));
    assert(lit_ok(LABEL_HEAD@));
    assert(lit_ok(LABEL_MID@));
    assert(lit_ok(LABEL_TAIL@));
    assert(LABEL_HEAD@[LABEL_HEAD@.len() - 1] != '{');
    assert(LABEL_MID@[LABEL_MID@.len() - 1] != '{');
    lemma_render_lit(LABEL_TAIL@, Seq::<char>::empty(), vs);
    assert(LABEL_TAIL@ + Seq::<char>::empty() =~= LABEL_TAIL@);
    assert(render_spec(LABEL_TAIL@, vs) == Ok::<Seq<char>, Seq<char>>(LABEL_TAIL@));
    lemma_render_var("repo"@, name, LABEL_TAIL@, vs);
    let s2 = "{{repo}}"@ + LABEL_TAIL@;
    assert(s2 =~= open_braces() + "repo"@ + close_braces() + LABEL_TAIL@);
    assert(render_spec(s2, vs) == Ok::<Seq<char>, Seq<char>>(name + LABEL_TAIL@));
    let s3 = LABEL_MID@ + s2;
    lemma_render_lit(LABEL_MID@, s2, vs);
    assert(render_spec(s3, vs) == Ok::<Seq<char>, Seq<char>>(LABEL_MID@ + (name + LABEL_TAIL@)));
    lemma_render_var("owner"@, owner, s3, vs);
    let s4 = "{{owner}}"@ + s3;
    assert(s4 =~= open_braces() + "owner"@ + close_braces() + s3);
    assert(render_spec(s4, vs) == Ok::<Seq<char>, Seq<char>>(
        owner + (LABEL_MID@ + (name + LABEL_TAIL@)),
    ));
    lemma_render_lit(LABEL_HEAD@, s4, vs);
    assert(label_template() =~= LABEL_HEAD@ + s4);
    assert(render_spec(label_template(), vs) == Ok::<Seq<char>, Seq<char>>(
        LABEL_HEAD@ + (owner + (LABEL_MID@ + (name + LABEL_TAIL@))),
    ));
    assert(LABEL_HEAD@ + (owner + (LABEL_MID@ + (name + LABEL_TAIL@))) =~= LABEL_HEAD@ + owner
        + LABEL_MID@ + name + LABEL_TAIL@);
}

/// Builds the search filter string for a repository's open issues.
fn search_filter(repo: &Repository) -> (f: String)
    ensures
        f@ == search_filter_spec(repo.owner@, repo.name@),
{
    String::from_str("user:").concat(repo.owner.as_str()).concat(" repo:").concat(
        repo.name.as_str(),
    ).concat(" is:issue state:open")
}

/// Renders a page as its document token: the quoted cursor, or `null`.
fn cursor_token(page: &GithubPage) -> (t: String)
    ensures
        t@ == cursor_token_spec(*page),
{
    match &page.end_cursor {
        Some(c) => {
            proof {
                reveal_strlit("\"");
            }
            let r = String::from_str("\"").concat(c.as_str()).concat("\"");
            assert(r@ =~= seq!['"'] + c@ + seq!['"']);
            r
        },
        None => String::from_str("null"),
    }
}

/// The GitHub backend's template documents, loaded at construction.
pub struct Github {
    search: String,
    labels: String,
}

impl Github {
    /// The templates are exactly the two fixed documents.
    pub closed spec fn well_formed(&self) -> bool {
        self.search@ == search_template() && self.labels@ == label_template()
    }

    /// Loads the two fixed template documents.
    pub fn new() -> (g: Github)
        ensures
            g.well_formed(),
    {
        let search = String::from_str(SEARCH_HEAD).concat("{{search}}").concat(SEARCH_MID).concat(
            "{{page}}",
        ).concat(SEARCH_TAIL);
        let labels = String::from_str(LABEL_HEAD).concat("{{owner}}").concat(LABEL_MID).concat(
            "{{repo}}",
        ).concat(LABEL_TAIL);
        Github { search, labels }
    }

    /// Renders the issue-search document for one query: the filter built
    /// from the repository, and the cursor token for the page.
    pub fn query_document(&self, query: &Query) -> (doc: String)
        requires
            self.well_formed(),
            query.repo.well_formed(),
        ensures
            doc@ == issue_document_spec(query.repo, query.page),
    {
        let filter = search_filter(&query.repo);
        let token = cursor_token(&query.page);
        let ghost filter_view = filter@;
        let ghost token_view = token@;
        let mut vars: Vec<(String, String)> = Vec::new();
        vars.push((String::from_str("search"), filter));
        vars.push((String::from_str("page"), token));
        proof {
            lemma_search_render(vars@, filter_view, token_view);
        }
        match render(self.search.as_str(), &vars) {
            Ok(doc) => {
                assert(doc@ =~= issue_document_spec(query.repo, query.page));
                doc
            },
            Err(_) => unreached(),
        }
    }

    /// Renders the label-list document for a repository.
    pub fn labels_document(&self, repo: &Repository) -> (doc: String)
        requires
            self.well_formed(),
            repo.well_formed(),
        ensures
            doc@ == label_document_spec(*repo),
    {
        let owner_var = repo.owner.clone();
        let name_var = repo.name.clone();
        let mut vars: Vec<(String, String)> = Vec::new();
        vars.push((String::from_str("owner"), owner_var));
        vars.push((String::from_str("repo"), name_var));
        proof {
            lemma_label_render(vars@, repo.owner@, repo.name@);
        }
        match render(self.labels.as_str(), &vars) {
            Ok(doc) => {
                assert(doc@ =~= label_document_spec(*repo));
                doc
            },
            Err(_) => unreached(),
        }
    }
}

/// The serialized POST payload wrapping a rendered document.
pub open spec fn query_body_spec(doc: Seq<char>) -> Seq<char> {
    seq!['{', '"', 'q', 'u', 'e', 'r', 'y', '"', ':', '"'] + escape_str(doc) + seq!['"', '}']
}

/// Text without quotes, backslashes or control characters serializes into
/// a JSON string unchanged.
proof fn lemma_escape_plain(s: Seq<char>)
    requires
        forall|i: int|
            0 <= i < s.len() ==> #[trigger] s[i] != '"' && s[i] != '\\' && (s[i] as int) >= 0x20,
    ensures
        escape_str(s) == s,
    decreases s.len(),
{
    if s.len() == 0 {
        assert(escape_str(s) =~= s);
    } else {
        assert(forall|i: int|
            0 <= i < s.drop_first().len() ==> #[trigger] s.drop_first()[i] == s[i + 1]);
        lemma_escape_plain(s.drop_first());
        assert(escape_char(s[0]) + s.drop_first() =~= s);
    }
}

/// Builds the wire payload for a rendered document: a JSON object with the
/// document under the `query` key.
pub fn query_body(document: String) -> (b: String)
    ensures
        b@ == query_body_spec(document@),
{
    let ghost doc_view = document@;
    let mut entries: Vec<(String, Json)> = Vec::new();
    entries.push((String::from_str("query"), Json::Str(document)));
    let payload = Json::Object(entries);
    let b = payload.to_text();
    proof {
        reveal_strlit("query");
        assert(brace_free("query"@));
        assert(forall|i: int|
            0 <= i < "query"@.len() ==> #[trigger] "query"@[i] != '"' && "query"@[i] != '\\' && (
            "query"@[i] as int) >= 0x20);
        lemma_escape_plain("query"@);
        assert(json_obj_text(entries@) == json_entry_text(entries@[0]));
        assert(b@ =~= query_body_spec(doc_view));
    }
    b
}

/// Wraps a transport outcome for the issue query: a network or body
/// failure is surfaced as a transport error, a JSON response is extracted,
/// and every failure names the operation and the repository.
pub fn query_outcome(repo: &Repository, response: Result<Json, TransportError>) -> (r: Result<
    QueryResult,
    BackendError,
>)
    ensures
        match response {
            Err(t) => (r matches Err(BackendError::Transport { op, repo: rp, err }) && op is Query
                && repo_matches(rp, *repo) && err == t),
            Ok(j) => match issue_page_of(j) {
                Ok(ic) => (r matches Ok(qr) && issues_match(qr.issues@, ic.0) && page_has_cursor(
                    qr.next_page,
                    ic.1,
                )),
                Err(f) => (r matches Err(BackendError::Extract { op, repo: rp, err }) && op
                    is Query && repo_matches(rp, *repo) && is_missing(err, f, j)),
            },
        },
{
    match response {
        Ok(j) => match extract_issue_page(&j) {
            Ok(page) => Ok(QueryResult { issues: page.0, next_page: page.1 }),
            Err(e) => Err(
                BackendError::Extract { op: BackendOp::Query, repo: repo.duplicate(), err: e },
            ),
        },
        Err(t) => Err(
            BackendError::Transport { op: BackendOp::Query, repo: repo.duplicate(), err: t },
        ),
    }
}

/// Wraps a transport outcome for the label query, as [`query_outcome`]
/// does for the issue query.
pub fn labels_outcome(repo: &Repository, response: Result<Json, TransportError>) -> (r: Result<
    Vec<IssueLabel>,
    BackendError,
>)
    ensures
        match response {
            Err(t) => (r matches Err(BackendError::Transport { op, repo: rp, err }) && op is Labels
                && repo_matches(rp, *repo) && err == t),
            Ok(j) => match labels_of(j) {
                Ok(ms) => (r matches Ok(v) && labels_match(v@, ms)),
                Err(f) => (r matches Err(BackendError::Extract { op, repo: rp, err }) && op
                    is Labels && repo_matches(rp, *repo) && is_missing(err, f, j)),
            },
        },
{
    match response {
        Ok(j) => match extract_labels(&j) {
            Ok(v) => Ok(v),
            Err(e) => Err(
                BackendError::Extract { op: BackendOp::Labels, repo: repo.duplicate(), err: e },
            ),
        },
        Err(t) => Err(
            BackendError::Transport { op: BackendOp::Labels, repo: repo.duplicate(), err: t },
        ),
    }
}

/// A fixture backend for tests: returns canned results without network
/// access, substitutable for the real backend without touching callers.
pub struct Fixture {
    pub issues: Vec<Issue>,
    pub cursor: String,
    pub labels: Vec<IssueLabel>,
}

impl Fixture {
    /// The canned query result: the stored issues, in order, and the
    /// stored cursor.
    pub fn canned_query(&self) -> (r: QueryResult)
        ensures
            r.issues@.len() == self.issues@.len(),
            forall|k: int|
                0 <= k < self.issues@.len() ==> (#[trigger] r.issues@[k].title@)
                    == self.issues@[k].title@ && r.issues@[k].author@ == self.issues@[k].author@,
            page_has_cursor(r.next_page, self.cursor@),
    {
        let mut issues: Vec<Issue> = Vec::new();
        let mut i: usize = 0;
        while i < self.issues.len()
            invariant
                i <= self.issues@.len(),
                issues@.len() == i,
                forall|k: int|
                    0 <= k < i ==> (#[trigger] issues@[k].title@) == self.issues@[k].title@
                        && issues@[k].author@ == self.issues@[k].author@,
            decreases self.issues@.len() - i,
        {
            let it = &self.issues[i];
            issues.push(Issue { title: it.title.clone(), author: it.author.clone() });
            i = i + 1;
        }
        QueryResult { issues, next_page: GithubPage { end_cursor: Some(self.cursor.clone()) } }
    }

    /// The canned label set: the stored labels, in order.
    pub fn canned_labels(&self) -> (r: Vec<IssueLabel>)
        ensures
            r@.len() == self.labels@.len(),
            forall|k: int|
                0 <= k < self.labels@.len() ==> (#[trigger] r@[k].name@) == self.labels@[k].name@
                    && r@[k].description@ == self.labels@[k].description@ && r@[k].color@
                    == self.labels@[k].color@,
    {
        let mut labels: Vec<IssueLabel> = Vec::new();
        let mut i: usize = 0;
        while i < self.labels.len()
            invariant
                i <= self.labels@.len(),
                labels@.len() == i,
                forall|k: int|
                    0 <= k < i ==> (#[trigger] labels@[k].name@) == self.labels@[k].name@
                        && labels@[k].description@ == self.labels@[k].description@
                        && labels@[k].color@ == self.labels@[k].color@,
            decreases self.labels@.len() - i,
        {
            let it = &self.labels[i];
            labels.push(
                IssueLabel {
                    name: it.name.clone(),
                    description: it.description.clone(),
                    color: it.color.clone(),
                },
            );
            i = i + 1;
        }
        labels
    }
}

impl Backend for Fixture {
    fn query(&self, _query: &Query) -> Result<QueryResult, BackendError> {
        Ok(self.canned_query())
    }

    fn labels(&self, _repo: &Repository) -> Result<Vec<IssueLabel>, BackendError> {
        Ok(self.canned_labels())
    }
}

/// Law: the cursor round-trips. For any response whose extraction
/// succeeds, a page carrying that response's end cursor renders into the
/// next issue document as the literal quoted cursor.
pub proof fn lemma_cursor_round_trip(resp: Json, repo: Repository, page: GithubPage)
    requires
        issue_page_of(resp) is Ok,
        page_has_cursor(page, issue_page_of(resp)->Ok_0.1),
    ensures
        contains_seq(
            issue_document_spec(repo, page),
            seq!['"'] + issue_page_of(resp)->Ok_0.1 + seq!['"'],
        ),
{
    lemma_contains_middle(issue_document_prefix(repo), cursor_token_spec(page), SEARCH_TAIL@);
}

/// Law: the default page renders into the issue document as the literal
/// `null` token.
pub proof fn lemma_default_page_renders_null(repo: Repository, page: GithubPage)
    requires
        page.end_cursor is None,
    ensures
        contains_seq(issue_document_spec(repo, page), "null"@),
{
    lemma_contains_middle(issue_document_prefix(repo), cursor_token_spec(page), SEARCH_TAIL@);
}

/// Law: two issue documents for the same repository differ only in the
/// rendered cursor token; the text before and after it is the same.
pub proof fn lemma_documents_differ_only_in_cursor(
    repo: Repository,
    first: GithubPage,
    second: GithubPage,
)
    ensures
        issue_document_spec(repo, first) == issue_document_prefix(repo) + cursor_token_spec(first)
            + SEARCH_TAIL@,
        issue_document_spec(repo, second) == issue_document_prefix(repo) + cursor_token_spec(
            second,
        ) + SEARCH_TAIL@,
{
}

} // verus!
