//! The query template engine: renders a parameterized query document from a
//! template with named placeholders and a mapping of substitution variables.
//!
//! A placeholder is written `{{name}}`. Rendering substitutes every
//! placeholder with the caller-supplied value for its name; all other text is
//! copied through unchanged. Substituted values are never rescanned. A
//! placeholder whose name is not bound by the mapping is a configuration
//! error and fails the whole rendering.

use vstd::prelude::*;

verus! {

/// Rendering failed: the template references a variable the mapping
/// does not supply.
#[derive(Debug)]
pub enum TemplateError {
    Unbound { name: String },
}

/// What the executable renderer returns.
pub type RenderResult = Result<String, TemplateError>;

/// Index of the first `}}` in `t`, if any.
pub open spec fn find_close(t: Seq<char>) -> Option<int>
    decreases t.len(),
{
    if t.len() < 2 {
        None
    } else if t[0] == '}' && t[1] == '}' {
        Some(0)
    } else {
        match find_close(t.drop_first()) {
            Some(j) => Some(j + 1),
            None => None,
        }
    }
}

/// First value bound to `name` in the variable mapping, if any.
pub open spec fn vars_get(vs: Seq<(String, String)>, name: Seq<char>) -> Option<Seq<char>>
    decreases vs.len(),
{
    if vs.len() == 0 {
        None
    } else if vs[0].0@ == name {
        Some(vs[0].1@)
    } else {
        vars_get(vs.drop_first(), name)
    }
}

/// Whether a well-delimited, bound-length placeholder starts at the head of
/// `t`: this is the guard of the substitution branch of `render_spec`.
pub open spec fn placeholder_at(t: Seq<char>) -> bool {
    t.len() >= 2 && t[0] == '{' && t[1] == '{' && find_close(t.skip(2)) is Some && 0 <= find_close(
        t.skip(2),
    ).unwrap() && 4 + find_close(t.skip(2)).unwrap() <= t.len()
}

/// What rendering returns: the rendered document, or the name of the first
/// unbound placeholder.
pub open spec fn render_spec(t: Seq<char>, vs: Seq<(String, String)>) -> Result<
    Seq<char>,
    Seq<char>,
>
    decreases t.len(),
{
    if placeholder_at(t) {
        let j = find_close(t.skip(2)).unwrap();
        let name = t.subrange(2, 2 + j);
        match vars_get(vs, name) {
            None => Err(name),
            Some(v) => match render_spec(t.skip(4 + j), vs) {
                Err(e) => Err(e),
                Ok(rest) => Ok(v + rest),
            },
        }
    } else if t.len() == 0 {
        Ok(Seq::empty())
    } else {
        match render_spec(t.drop_first(), vs) {
            Err(e) => Err(e),
            Ok(r) => Ok(seq![t[0]] + r),
        }
    }
}

/// Literal text that rendering copies through unchanged: it opens no
/// placeholder anywhere.
pub open spec fn lit_ok(s: Seq<char>) -> bool {
    forall|i: int| 0 <= i < s.len() - 1 ==> !(#[trigger] s[i] == '{' && s[i + 1] == '{')
}

/// Text free of braces, so a closing `}}` after it is found exactly where it
/// stands.
pub open spec fn brace_free(s: Seq<char>) -> bool {
    forall|i: int| 0 <= i < s.len() ==> #[trigger] s[i] != '}' && s[i] != '{'
}

/// A placeholder name as it can stand in a template: non-empty and free of
/// braces.
pub open spec fn name_ok(s: Seq<char>) -> bool {
    s.len() > 0 && brace_free(s)
}

/// The two characters that open a placeholder.
pub open spec fn open_braces() -> Seq<char> {
    seq!['{', '{']
}

/// The two characters that close a placeholder.
pub open spec fn close_braces() -> Seq<char> {
    seq!['}', '}']
}

/// The first `}}` after a brace-free name stands exactly at its end.
proof fn lemma_find_close_after_name(name: Seq<char>, rest: Seq<char>)
    requires
        brace_free(name),
    ensures
        find_close(name + close_braces() + rest) == Some(name.len() as int),
    decreases name.len(),
{
    let t = name + close_braces() + rest;
    if name.len() == 0 {
        assert(t =~= close_braces() + rest);
        assert(t[0] == '}' && t[1] == '}');
    } else {
        assert(t[0] == name[0]);
        assert(name[0] != '}');
        assert(brace_free(name.drop_first())) by {
            assert(forall|i: int|
                0 <= i < name.drop_first().len() ==> #[trigger] name.drop_first()[i] == name[i
                    + 1]);
        }
        lemma_find_close_after_name(name.drop_first(), rest);
        assert(t.drop_first() =~= name.drop_first() + close_braces() + rest);
    }
}

/// Where `find_close` finds a closing pair, it stands inside the text.
proof fn lemma_find_close_bounds(s: Seq<char>)
    ensures
        find_close(s) matches Some(j) ==> 0 <= j && j + 2 <= s.len() && s[j] == '}' && s[j + 1]
            == '}',
    decreases s.len(),
{
    if s.len() >= 2 && !(s[0] == '}' && s[1] == '}') {
        lemma_find_close_bounds(s.drop_first());
    }
}

/// Rendering passes literal text through: prepending a literal that opens no
/// placeholder (and does not form one with what follows) prepends it to the
/// rendered remainder and changes nothing else.
pub proof fn lemma_render_lit(lit: Seq<char>, rest: Seq<char>, vs: Seq<(String, String)>)
    requires
        lit_ok(lit),
        lit.len() > 0 && rest.len() > 0 ==> !(lit.last() == '{' && rest[0] == '{'),
    ensures
        render_spec(lit + rest, vs) == match render_spec(rest, vs) {
            Ok(r) => Ok::<Seq<char>, Seq<char>>(lit + r),
            Err(e) => Err::<Seq<char>, Seq<char>>(e),
        },
    decreases lit.len(),
{
    let t = lit + rest;
    if lit.len() == 0 {
        assert(t =~= rest);
        match render_spec(rest, vs) {
            Ok(r) => {
                assert(lit + r =~= r);
            },
            Err(e) => {},
        }
    } else {
        // The head of `t` is a literal character: it cannot start `{{`.
        if t.len() >= 2 && t[0] == '{' && t[1] == '{' {
            if lit.len() >= 2 {
                assert(!(lit[0] == '{' && lit[1] == '{'));
                assert(t[1] == lit[1]);
                assert(false);
            } else {
                assert(lit.last() == '{' && rest.len() > 0 && rest[0] == '{');
                assert(false);
            }
        }
        assert(lit_ok(lit.drop_first())) by {
            assert(forall|i: int|
                0 <= i < lit.drop_first().len() - 1 ==> !(#[trigger] lit.drop_first()[i] == '{'
                    && lit.drop_first()[i + 1] == '{')) by {
                assert(forall|i: int|
                    0 <= i < lit.drop_first().len() - 1 ==> #[trigger] lit.drop_first()[i] == lit[i
                        + 1] && lit.drop_first()[i + 1] == lit[i + 2]);
            }
        }
        lemma_render_lit(lit.drop_first(), rest, vs);
        assert(t.drop_first() =~= lit.drop_first() + rest);
        match render_spec(rest, vs) {
            Ok(r) => {
                assert(seq![t[0]] + (lit.drop_first() + r) =~= lit + r);
            },
            Err(e) => {},
        }
    }
}

/// Rendering substitutes a bound placeholder: `{{name}}` followed by the
/// remainder renders to the bound value followed by the rendered remainder.
pub proof fn lemma_render_var(name: Seq<char>, v: Seq<char>, rest: Seq<char>, vs: Seq<(String, String)>)
    requires
        name_ok(name),
        vars_get(vs, name) == Some(v),
    ensures
        render_spec(open_braces() + name + close_braces() + rest, vs) == match render_spec(
            rest,
            vs,
        ) {
            Ok(r) => Ok::<Seq<char>, Seq<char>>(v + r),
            Err(e) => Err::<Seq<char>, Seq<char>>(e),
        },
{
    let t = open_braces() + name + close_braces() + rest;
    assert(t[0] == '{' && t[1] == '{');
    assert(t.skip(2) =~= name + close_braces() + rest);
    lemma_find_close_after_name(name, rest);
    let j = name.len() as int;
    assert(find_close(t.skip(2)) == Some(j));
    assert(4 + j <= t.len());
    assert(t.subrange(2, 2 + j) =~= name);
    assert(t.skip(4 + j) =~= rest);
}

/// Whether `needle` occurs contiguously anywhere in `hay`.
pub open spec fn contains_seq(hay: Seq<char>, needle: Seq<char>) -> bool {
    exists|i: int|
        0 <= i && i + needle.len() <= hay.len() && #[trigger] hay.subrange(i, i + needle.len())
            == needle
}

/// Text assembled around a middle part contains that part.
pub proof fn lemma_contains_middle(a: Seq<char>, m: Seq<char>, b: Seq<char>)
    ensures
        contains_seq(a + m + b, m),
{
    let h = a + m + b;
    let i = a.len() as int;
    assert(h.subrange(i, i + m.len()) =~= m);
}

/// Finds the first `}}` at or after `start`, by absolute character index.
fn find_close_from(t: &str, start: usize) -> (r: Option<usize>)
    requires
        start <= t@.len(),
    ensures
        match r {
            Some(k) => start <= k && k + 1 < t@.len() && find_close(t@.skip(start as int))
                == Some(k - start as int),
            None => find_close(t@.skip(start as int)) is None,
        },
{
    let n = t.unicode_len();
    let mut k: usize = start;
    proof {
        lemma_find_close_bounds(t@.skip(start as int));
    }
    loop
        invariant
            start <= k <= n,
            n == t@.len(),
            match find_close(t@.skip(start as int)) {
                Some(j) => j >= k - start && find_close(t@.skip(k as int)) == Some(
                    j - (k - start as int),
                ),
                None => find_close(t@.skip(k as int)) is None,
            },
        decreases n - k,
    {
        if n - k < 2 {
            assert(t@.skip(k as int).len() < 2);
            return None;
        }
        let c0 = t.get_char(k);
        let c1 = t.get_char(k + 1);
        if c0 == '}' && c1 == '}' {
            assert(t@.skip(k as int)[0] == '}' && t@.skip(k as int)[1] == '}');
            assert(find_close(t@.skip(k as int)) == Some(0int));
            proof {
                lemma_find_close_bounds(t@.skip(start as int));
            }
            return Some(k);
        }
        proof {
            let s = t@.skip(k as int);
            assert(s[0] == t@[k as int] && s[1] == t@[k + 1]);
            assert(s.drop_first() =~= t@.skip(k + 1));
            lemma_find_close_bounds(s.drop_first());
        }
        k = k + 1;
    }
}

/// Looks `name` up in the variable mapping; the first binding wins.
fn lookup<'a>(vars: &'a Vec<(String, String)>, name: &str) -> (r: Option<&'a String>)
    ensures
        match r {
            Some(v) => vars_get(vars@, name@) == Some(v@),
            None => vars_get(vars@, name@) is None,
        },
{
    let wanted: String = name.to_owned();
    let mut idx: usize = 0;
    proof {
        assert(vars@.skip(0) =~= vars@);
    }
    loop
        invariant
            idx <= vars@.len(),
            wanted@ == name@,
            vars_get(vars@, name@) == vars_get(vars@.skip(idx as int), name@),
        decreases vars@.len() - idx,
    {
        if idx >= vars.len() {
            assert(vars@.skip(idx as int).len() == 0);
            return None;
        }
        if vars[idx].0 == wanted {
            assert(vars@.skip(idx as int)[0] == vars@[idx as int]);
            return Some(&vars[idx].1);
        }
        proof {
            let s = vars@.skip(idx as int);
            assert(s[0] == vars@[idx as int]);
            assert(s.drop_first() =~= vars@.skip(idx + 1));
        }
        idx = idx + 1;
    }
}

/// Renders the template suffix that starts at character `i`.
fn render_from(t: &str, i: usize, vars: &Vec<(String, String)>) -> (r: RenderResult)
    requires
        i <= t@.len(),
    ensures
        match render_spec(t@.skip(i as int), vars@) {
            Ok(d) => r matches Ok(s) && s@ == d,
            Err(n) => r matches Err(TemplateError::Unbound { name }) && name@ == n,
        },
    decreases t@.len() - i, 2int,
{
    let ghost s = t@.skip(i as int);
    let n = t.unicode_len();
    if i >= n {
        proof {
            assert(s =~= Seq::<char>::empty());
        }
        return Ok(String::new());
    }
    assert(s[0] == t@[i as int]);
    let c0 = t.get_char(i);
    if c0 == '{' && i + 1 < n && t.get_char(i + 1) == '{' {
        assert(s[1] == t@[i + 1]);
        match find_close_from(t, i + 2) {
            Some(cl) => {
                let ghost j = cl - (i + 2) as int;
                proof {
                    assert(s.skip(2) =~= t@.skip(i + 2));
                    assert(find_close(s.skip(2)) == Some(j));
                    assert(4 + j <= s.len());
                }
                let name = t.substring_char(i + 2, cl);
                proof {
                    assert(name@ =~= s.subrange(2, 2 + j));
                }
                match lookup(vars, name) {
                    Some(v) => {
                        proof {
                            assert(s.skip(4 + j) =~= t@.skip(cl + 2));
                        }
                        match render_from(t, cl + 2, vars) {
                            Ok(rest) => {
                                let out = v.clone().concat(rest.as_str());
                                Ok(out)
                            },
                            Err(e) => Err(e),
                        }
                    },
                    None => Err(TemplateError::Unbound { name: name.to_owned() }),
                }
            },
            None => {
                proof {
                    assert(s.skip(2) =~= t@.skip(i + 2));
                }
                render_copy_char(t, i, vars)
            },
        }
    } else {
        if i + 1 < n {
            assert(s[1] == t@[i + 1]);
        }
        render_copy_char(t, i, vars)
    }
}

/// Copies the single literal character at `i` and renders the rest.
fn render_copy_char(t: &str, i: usize, vars: &Vec<(String, String)>) -> (r: RenderResult)
    requires
        i < t@.len(),
        t@.len() <= usize::MAX,
        !placeholder_at(t@.skip(i as int)),
    ensures
        match render_spec(t@.skip(i as int), vars@) {
            Ok(d) => r matches Ok(s) && s@ == d,
            Err(n) => r matches Err(TemplateError::Unbound { name }) && name@ == n,
        },
    decreases t@.len() - i, 1int,
{
    let ghost s = t@.skip(i as int);
    let head = t.substring_char(i, i + 1);
    proof {
        assert(s.drop_first() =~= t@.skip(i + 1));
        assert(head@ =~= seq![s[0]]);
    }
    match render_from(t, i + 1, vars) {
        Ok(rest) => {
            let out = String::from_str(head).concat(rest.as_str());
            Ok(out)
        },
        Err(e) => Err(e),
    }
}

/// Renders `template`, substituting each `{{name}}` placeholder with the
/// value bound to `name` in `vars`; fails with the name of the first
/// placeholder that `vars` does not bind.
pub fn render(template: &str, vars: &Vec<(String, String)>) -> (r: RenderResult)
    ensures
        match render_spec(template@, vars@) {
            Ok(d) => r matches Ok(s) && s@ == d,
            Err(n) => r matches Err(TemplateError::Unbound { name }) && name@ == n,
        },
{
    proof {
        assert(template@.skip(0) =~= template@);
    }
    render_from(template, 0, vars)
}

} // verus!
