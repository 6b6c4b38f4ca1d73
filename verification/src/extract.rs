//! The response extractor: navigates a JSON response by a fixed path,
//! validates presence and type of every required field, and converts the
//! matching nodes into domain records or a pagination cursor.
//!
//! Extraction is all-or-nothing: a single malformed node aborts the whole
//! batch rather than silently dropping records.

use vstd::prelude::*;

use crate::backend::GithubPage;
use crate::board::{Issue, IssueLabel};
use crate::json::{json_get, json_get_str, json_text, Json};

verus! {

/// An expected field was absent or of the wrong type at a known path. The
/// error names the field and carries the serialized response for
/// diagnostics.
#[derive(Debug)]
pub enum ExtractError {
    MissingField { field: String, body: String },
}

/// Whether the page `p` carries exactly the cursor text `c`.
pub open spec fn page_has_cursor(p: GithubPage, c: Seq<char>) -> bool {
    p.end_cursor matches Some(s) && s@ == c
}

/// Whether `e` reports the field named `f` for the response `resp`.
pub open spec fn is_missing(e: ExtractError, f: Seq<char>, resp: Json) -> bool {
    e matches ExtractError::MissingField { field, body } && field@ == f && body@ == json_text(resp)
}

/// Member at the fixed three-step path `k1.k2.k3`, if every step is present.
pub open spec fn json_path3(j: Json, k1: Seq<char>, k2: Seq<char>, k3: Seq<char>) -> Option<Json> {
    match json_get(j, k1) {
        Some(d) => match json_get(d, k2) {
            Some(s) => json_get(s, k3),
            None => None,
        },
        None => None,
    }
}

/// The issue node array of a response, at `data.search.nodes`.
pub open spec fn search_nodes(resp: Json) -> Option<Seq<Json>> {
    match json_path3(resp, "data"@, "search"@, "nodes"@) {
        Some(Json::Array(a)) => Some(a@),
        _ => None,
    }
}

/// The pagination node of a response, at `data.search.pageInfo`.
pub open spec fn search_page_info(resp: Json) -> Option<Json> {
    json_path3(resp, "data"@, "search"@, "pageInfo"@)
}

/// The author of one issue node: the display name if present, else the
/// login handle; `None` when neither is a present string.
pub open spec fn author_of_node(n: Json) -> Option<Seq<char>> {
    match json_get(n, "author"@) {
        Some(a) => match json_get_str(a, "name"@) {
            Some(s) => Some(s),
            None => json_get_str(a, "login"@),
        },
        None => None,
    }
}

/// What one issue node extracts to: `(title, author)`, or the name of the
/// missing field. The author is resolved before the title, so a node
/// missing both reports the author.
pub open spec fn node_issue(n: Json) -> Result<(Seq<char>, Seq<char>), Seq<char>> {
    match author_of_node(n) {
        None => Err("author"@),
        Some(a) => match json_get_str(n, "title"@) {
            None => Err("title"@),
            Some(t) => Ok((t, a)),
        },
    }
}

/// What a node array extracts to: every node's `(title, author)` in array
/// order, or the first node failure in array order.
pub open spec fn issues_of_nodes(ns: Seq<Json>) -> Result<
    Seq<(Seq<char>, Seq<char>)>,
    Seq<char>,
>
    decreases ns.len(),
{
    if ns.len() == 0 {
        Ok(Seq::empty())
    } else {
        match node_issue(ns[0]) {
            Err(f) => Err(f),
            Ok(p) => match issues_of_nodes(ns.drop_first()) {
                Err(f) => Err(f),
                Ok(rest) => Ok(seq![p] + rest),
            },
        }
    }
}

/// What a whole issue response extracts to: the issue records and the end
/// cursor, or the first missing field. The node array is validated before
/// the pagination node, and the cursor is required unconditionally.
pub open spec fn issue_page_of(resp: Json) -> Result<
    (Seq<(Seq<char>, Seq<char>)>, Seq<char>),
    Seq<char>,
> {
    match search_nodes(resp) {
        None => Err("issues"@),
        Some(ns) => match issues_of_nodes(ns) {
            Err(f) => Err(f),
            Ok(items) => match search_page_info(resp) {
                None => Err("pageInfo"@),
                Some(pi) => match json_get_str(pi, "endCursor"@) {
                    None => Err("endCursor"@),
                    Some(c) => Ok((items, c)),
                },
            },
        },
    }
}

/// The label node array of a response, at `data.labels.nodes`.
pub open spec fn label_nodes(resp: Json) -> Option<Seq<Json>> {
    match json_path3(resp, "data"@, "labels"@, "nodes"@) {
        Some(Json::Array(a)) => Some(a@),
        _ => None,
    }
}

/// What one label node extracts to: `(name, description, color)`, or the
/// first missing field in that order.
pub open spec fn node_label(n: Json) -> Result<(Seq<char>, Seq<char>, Seq<char>), Seq<char>> {
    match json_get_str(n, "name"@) {
        None => Err("name"@),
        Some(nm) => match json_get_str(n, "description"@) {
            None => Err("description"@),
            Some(d) => match json_get_str(n, "color"@) {
                None => Err("color"@),
                Some(c) => Ok((nm, d, c)),
            },
        },
    }
}

/// What a label node array extracts to: every record in array order, or the
/// first node failure in array order.
pub open spec fn labels_of_nodes(ns: Seq<Json>) -> Result<
    Seq<(Seq<char>, Seq<char>, Seq<char>)>,
    Seq<char>,
>
    decreases ns.len(),
{
    if ns.len() == 0 {
        Ok(Seq::empty())
    } else {
        match node_label(ns[0]) {
            Err(f) => Err(f),
            Ok(p) => match labels_of_nodes(ns.drop_first()) {
                Err(f) => Err(f),
                Ok(rest) => Ok(seq![p] + rest),
            },
        }
    }
}

/// What a whole label response extracts to.
pub open spec fn labels_of(resp: Json) -> Result<Seq<(Seq<char>, Seq<char>, Seq<char>)>, Seq<char>> {
    match label_nodes(resp) {
        None => Err("labels"@),
        Some(ns) => labels_of_nodes(ns),
    }
}

/// Whether the issue records `v` carry exactly the extracted `(title,
/// author)` pairs `m`, in order.
pub open spec fn issues_match(v: Seq<Issue>, m: Seq<(Seq<char>, Seq<char>)>) -> bool {
    v.len() == m.len() && forall|i: int|
        0 <= i < v.len() ==> (#[trigger] v[i].title@) == m[i].0 && v[i].author@ == m[i].1
}

/// Whether the label records `v` carry exactly the extracted `(name,
/// description, color)` triples `m`, in order.
pub open spec fn labels_match(v: Seq<IssueLabel>, m: Seq<(Seq<char>, Seq<char>, Seq<char>)>) -> bool {
    v.len() == m.len() && forall|i: int|
        0 <= i < v.len() ==> (#[trigger] v[i].name@) == m[i].0 && v[i].description@ == m[i].1
            && v[i].color@ == m[i].2
}

/// The extracted pairs of the first `i` nodes, each of which must extract.
pub open spec fn issue_prefix(ns: Seq<Json>, i: int) -> Seq<(Seq<char>, Seq<char>)> {
    Seq::new(i as nat, |k: int| node_issue(ns[k])->Ok_0)
}

/// The extracted triples of the first `i` nodes, each of which must
/// extract.
pub open spec fn label_prefix(ns: Seq<Json>, i: int) -> Seq<(Seq<char>, Seq<char>, Seq<char>)> {
    Seq::new(i as nat, |k: int| node_label(ns[k])->Ok_0)
}

/// Splits node-array extraction at `i`: when the first `i` nodes extract,
/// the whole array's outcome is theirs followed by the rest's outcome.
proof fn lemma_issues_split(ns: Seq<Json>, i: int)
    requires
        0 <= i <= ns.len(),
        forall|k: int| 0 <= k < i ==> (#[trigger] node_issue(ns[k])) is Ok,
    ensures
        issues_of_nodes(ns) == match issues_of_nodes(ns.skip(i)) {
            Err(f) => Err::<Seq<(Seq<char>, Seq<char>)>, Seq<char>>(f),
            Ok(rest) => Ok::<Seq<(Seq<char>, Seq<char>)>, Seq<char>>(issue_prefix(ns, i) + rest),
        },
    decreases i,
{
    if i == 0 {
        assert(ns.skip(0) =~= ns);
        match issues_of_nodes(ns) {
            Err(f) => {},
            Ok(rest) => {
                assert(issue_prefix(ns, 0) + rest =~= rest);
            },
        }
    } else {
        lemma_issues_split(ns, i - 1);
        let s = ns.skip(i - 1);
        assert(s[0] == ns[i - 1]);
        assert(node_issue(ns[i - 1]) is Ok);
        assert(s.drop_first() =~= ns.skip(i));
        match issues_of_nodes(ns.skip(i)) {
            Err(f) => {},
            Ok(rest) => {
                assert(issue_prefix(ns, i - 1) + (seq![node_issue(ns[i - 1])->Ok_0] + rest)
                    =~= issue_prefix(ns, i) + rest);
            },
        }
    }
}

/// Splits label-array extraction at `i`, as [`lemma_issues_split`] does.
proof fn lemma_labels_split(ns: Seq<Json>, i: int)
    requires
        0 <= i <= ns.len(),
        forall|k: int| 0 <= k < i ==> (#[trigger] node_label(ns[k])) is Ok,
    ensures
        labels_of_nodes(ns) == match labels_of_nodes(ns.skip(i)) {
            Err(f) => Err::<Seq<(Seq<char>, Seq<char>, Seq<char>)>, Seq<char>>(f),
            Ok(rest) => Ok::<Seq<(Seq<char>, Seq<char>, Seq<char>)>, Seq<char>>(
                label_prefix(ns, i) + rest,
            ),
        },
    decreases i,
{
    if i == 0 {
        assert(ns.skip(0) =~= ns);
        match labels_of_nodes(ns) {
            Err(f) => {},
            Ok(rest) => {
                assert(label_prefix(ns, 0) + rest =~= rest);
            },
        }
    } else {
        lemma_labels_split(ns, i - 1);
        let s = ns.skip(i - 1);
        assert(s[0] == ns[i - 1]);
        assert(node_label(ns[i - 1]) is Ok);
        assert(s.drop_first() =~= ns.skip(i));
        match labels_of_nodes(ns.skip(i)) {
            Err(f) => {},
            Ok(rest) => {
                assert(label_prefix(ns, i - 1) + (seq![node_label(ns[i - 1])->Ok_0] + rest)
                    =~= label_prefix(ns, i) + rest);
            },
        }
    }
}

/// Law: a node whose author object carries a display name extracts that
/// name as the author.
pub proof fn lemma_author_prefers_display_name(n: Json, a: Json, s: Seq<char>)
    requires
        json_get(n, "author"@) == Some(a),
        json_get_str(a, "name"@) == Some(s),
    ensures
        author_of_node(n) == Some(s),
{
}

/// Law: a node whose author object carries no display name falls back to
/// the login handle.
pub proof fn lemma_author_falls_back_to_login(n: Json, a: Json)
    requires
        json_get(n, "author"@) == Some(a),
        json_get_str(a, "name"@) is None,
    ensures
        author_of_node(n) == json_get_str(a, "login"@),
{
}

/// Law: a node with neither author field fails with the author error.
pub proof fn lemma_missing_author_fails_node(n: Json)
    requires
        author_of_node(n) is None,
    ensures
        node_issue(n) == Err::<(Seq<char>, Seq<char>), Seq<char>>("author"@),
{
}

/// One failing node fails the whole node array.
proof fn lemma_issues_err_at(ns: Seq<Json>, i: int)
    requires
        0 <= i < ns.len(),
        node_issue(ns[i]) is Err,
    ensures
        issues_of_nodes(ns) is Err,
    decreases i,
{
    if !(node_issue(ns[0]) is Err) {
        assert(i != 0);
        assert(ns.drop_first()[i - 1] == ns[i]);
        lemma_issues_err_at(ns.drop_first(), i - 1);
    }
}

/// One failing label node fails the whole node array.
proof fn lemma_labels_err_at(ns: Seq<Json>, i: int)
    requires
        0 <= i < ns.len(),
        node_label(ns[i]) is Err,
    ensures
        labels_of_nodes(ns) is Err,
    decreases i,
{
    if !(node_label(ns[0]) is Err) {
        assert(i != 0);
        assert(ns.drop_first()[i - 1] == ns[i]);
        lemma_labels_err_at(ns.drop_first(), i - 1);
    }
}

/// Law: extraction is all-or-nothing. If any one node of the response's
/// array lacks a string title, the whole page extraction fails: no issues
/// from that response are returned.
pub proof fn lemma_page_all_or_nothing(resp: Json, ns: Seq<Json>, i: int)
    requires
        search_nodes(resp) == Some(ns),
        0 <= i < ns.len(),
        json_get_str(ns[i], "title"@) is None,
    ensures
        issue_page_of(resp) is Err,
{
    assert(node_issue(ns[i]) is Err);
    lemma_issues_err_at(ns, i);
}

/// Law: a label node missing its color, even with name and description
/// present, fails the whole label batch.
pub proof fn lemma_labels_all_or_nothing(resp: Json, ns: Seq<Json>, i: int)
    requires
        label_nodes(resp) == Some(ns),
        0 <= i < ns.len(),
        json_get_str(ns[i], "name"@) is Some,
        json_get_str(ns[i], "description"@) is Some,
        json_get_str(ns[i], "color"@) is None,
    ensures
        labels_of(resp) is Err,
{
    assert(node_label(ns[i]) is Err);
    lemma_labels_err_at(ns, i);
}

/// Law: extracted issues mirror the source node array: one record per
/// node, in the same order, with no reordering or deduplication.
pub proof fn lemma_issue_order(ns: Seq<Json>, items: Seq<(Seq<char>, Seq<char>)>)
    requires
        issues_of_nodes(ns) == Ok::<Seq<(Seq<char>, Seq<char>)>, Seq<char>>(items),
    ensures
        items.len() == ns.len(),
        forall|i: int|
            0 <= i < ns.len() ==> (#[trigger] node_issue(ns[i])) is Ok && items[i] == node_issue(
                ns[i],
            )->Ok_0,
    decreases ns.len(),
{
    if ns.len() > 0 {
        let rest = issues_of_nodes(ns.drop_first())->Ok_0;
        lemma_issue_order(ns.drop_first(), rest);
        assert forall|i: int|
            0 <= i < ns.len() implies (#[trigger] node_issue(ns[i])) is Ok && items[i]
            == node_issue(ns[i])->Ok_0 by {
            if i > 0 {
                assert(ns.drop_first()[i - 1] == ns[i]);
                assert(items[i] == rest[i - 1]);
            }
        }
    }
}

/// Builds the error for a missing `field`, carrying the serialized
/// response.
fn missing(field: &str, resp: &Json) -> (e: ExtractError)
    ensures
        is_missing(e, field@, *resp),
{
    ExtractError::MissingField { field: field.to_owned(), body: resp.to_text() }
}

/// Member at the fixed three-step path `k1.k2.k3`.
fn get_path3<'a>(j: &'a Json, k1: &str, k2: &str, k3: &str) -> (r: Option<&'a Json>)
    ensures
        match r {
            Some(v) => json_path3(*j, k1@, k2@, k3@) == Some(*v),
            None => json_path3(*j, k1@, k2@, k3@) is None,
        },
{
    match j.get(k1) {
        Some(d) => match d.get(k2) {
            Some(s) => s.get(k3),
            None => None,
        },
        None => None,
    }
}

/// Resolves the author of one issue node: the display name if present,
/// else the login handle.
fn author_of<'a>(node: &'a Json) -> (r: Option<&'a String>)
    ensures
        match r {
            Some(s) => author_of_node(*node) == Some(s@),
            None => author_of_node(*node) is None,
        },
{
    match node.get("author") {
        Some(a) => match a.get_str("name") {
            Some(s) => Some(s),
            None => a.get_str("login"),
        },
        None => None,
    }
}

/// Converts one issue response into issue records and the next-page
/// cursor, exactly as [`issue_page_of`] describes: all-or-nothing, in
/// array order, reporting the first missing field.
pub fn extract_issue_page(resp: &Json) -> (r: Result<(Vec<Issue>, GithubPage), ExtractError>)
    ensures
        match issue_page_of(*resp) {
            Ok(ic) => r matches Ok(p) && issues_match(p.0@, ic.0) && page_has_cursor(p.1, ic.1),
            Err(f) => r matches Err(e) && is_missing(e, f, *resp),
        },
{
    let ns: &Vec<Json> = match get_path3(resp, "data", "search", "nodes") {
        Some(v) => match v {
            Json::Array(a) => a,
            _ => {
                return Err(missing("issues", resp));
            },
        },
        None => {
            return Err(missing("issues", resp));
        },
    };
    let mut issues: Vec<Issue> = Vec::new();
    let mut idx: usize = 0;
    while idx < ns.len()
        invariant
            idx <= ns@.len(),
            search_nodes(*resp) == Some(ns@),
            forall|k: int| 0 <= k < idx ==> (#[trigger] node_issue(ns@[k])) is Ok,
            issues_match(issues@, issue_prefix(ns@, idx as int)),
        decreases ns@.len() - idx,
    {
        let node = &ns[idx];
        let author = match author_of(node) {
            Some(s) => s.clone(),
            None => {
                proof {
                    lemma_issues_split(ns@, idx as int);
                    assert(ns@.skip(idx as int)[0] == ns@[idx as int]);
                }
                return Err(missing("author", resp));
            },
        };
        let title = match node.get_str("title") {
            Some(t) => t.clone(),
            None => {
                proof {
                    lemma_issues_split(ns@, idx as int);
                    assert(ns@.skip(idx as int)[0] == ns@[idx as int]);
                }
                return Err(missing("title", resp));
            },
        };
        proof {
            assert(node_issue(ns@[idx as int]) == Ok::<(Seq<char>, Seq<char>), Seq<char>>(
                (title@, author@),
            ));
        }
        let ghost previous = issues@;
        issues.push(Issue { title, author });
        proof {
            let m = issue_prefix(ns@, idx + 1);
            assert forall|k: int|
                0 <= k < issues@.len() implies (#[trigger] issues@[k].title@) == m[k].0
                && issues@[k].author@ == m[k].1 by {
                if k < idx {
                    assert(issues@[k] == previous[k]);
                    assert(previous[k].title@ == issue_prefix(ns@, idx as int)[k].0);
                    assert(previous[k].author@ == issue_prefix(ns@, idx as int)[k].1);
                }
            }
            assert(issues_match(issues@, m));
        }
        idx = idx + 1;
    }
    proof {
        lemma_issues_split(ns@, ns@.len() as int);
        assert(ns@.skip(ns@.len() as int) =~= Seq::<Json>::empty());
        assert(issue_prefix(ns@, ns@.len() as int) + Seq::<(Seq<char>, Seq<char>)>::empty()
            =~= issue_prefix(ns@, ns@.len() as int));
    }
    let pi = match get_path3(resp, "data", "search", "pageInfo") {
        Some(pi) => pi,
        None => {
            return Err(missing("pageInfo", resp));
        },
    };
    let cursor = match pi.get_str("endCursor") {
        Some(c) => c.clone(),
        None => {
            return Err(missing("endCursor", resp));
        },
    };
    Ok((issues, GithubPage { end_cursor: Some(cursor) }))
}

/// Converts one label response into label records, exactly as
/// [`labels_of`] describes: all-or-nothing, in array order, reporting the
/// first missing field.
pub fn extract_labels(resp: &Json) -> (r: Result<Vec<IssueLabel>, ExtractError>)
    ensures
        match labels_of(*resp) {
            Ok(ms) => r matches Ok(v) && labels_match(v@, ms),
            Err(f) => r matches Err(e) && is_missing(e, f, *resp),
        },
{
    let ns: &Vec<Json> = match get_path3(resp, "data", "labels", "nodes") {
        Some(v) => match v {
            Json::Array(a) => a,
            _ => {
                return Err(missing("labels", resp));
            },
        },
        None => {
            return Err(missing("labels", resp));
        },
    };
    let mut labels: Vec<IssueLabel> = Vec::new();
    let mut idx: usize = 0;
    while idx < ns.len()
        invariant
            idx <= ns@.len(),
            label_nodes(*resp) == Some(ns@),
            forall|k: int| 0 <= k < idx ==> (#[trigger] node_label(ns@[k])) is Ok,
            labels_match(labels@, label_prefix(ns@, idx as int)),
        decreases ns@.len() - idx,
    {
        let node = &ns[idx];
        let name = match node.get_str("name") {
            Some(s) => s.clone(),
            None => {
                proof {
                    lemma_labels_split(ns@, idx as int);
                    assert(ns@.skip(idx as int)[0] == ns@[idx as int]);
                }
                return Err(missing("name", resp));
            },
        };
        let description = match node.get_str("description") {
            Some(s) => s.clone(),
            None => {
                proof {
                    lemma_labels_split(ns@, idx as int);
                    assert(ns@.skip(idx as int)[0] == ns@[idx as int]);
                }
                return Err(missing("description", resp));
            },
        };
        let color = match node.get_str("color") {
            Some(s) => s.clone(),
            None => {
                proof {
                    lemma_labels_split(ns@, idx as int);
                    assert(ns@.skip(idx as int)[0] == ns@[idx as int]);
                }
                return Err(missing("color", resp));
            },
        };
        proof {
            assert(node_label(ns@[idx as int]) == Ok::<(Seq<char>, Seq<char>, Seq<char>), Seq<char>>(
                (name@, description@, color@),
            ));
        }
        let ghost previous = labels@;
        labels.push(IssueLabel { name, description, color });
        proof {
            let m = label_prefix(ns@, idx + 1);
            assert forall|k: int|
                0 <= k < labels@.len() implies (#[trigger] labels@[k].name@) == m[k].0
                && labels@[k].description@ == m[k].1 && labels@[k].color@ == m[k].2 by {
                if k < idx {
                    assert(labels@[k] == previous[k]);
                    assert(previous[k].name@ == label_prefix(ns@, idx as int)[k].0);
                    assert(previous[k].description@ == label_prefix(ns@, idx as int)[k].1);
                    assert(previous[k].color@ == label_prefix(ns@, idx as int)[k].2);
                }
            }
            assert(labels_match(labels@, m));
        }
        idx = idx + 1;
    }
    proof {
        lemma_labels_split(ns@, ns@.len() as int);
        assert(ns@.skip(ns@.len() as int) =~= Seq::<Json>::empty());
        assert(label_prefix(ns@, ns@.len() as int) + Seq::<(Seq<char>, Seq<char>, Seq<char>)>::empty()
            =~= label_prefix(ns@, ns@.len() as int));
    }
    Ok(labels)
}

} // verus!
