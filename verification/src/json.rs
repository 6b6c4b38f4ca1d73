//! The library's own JSON value tree.
//!
//! A response arriving from the wire is handed to the library as a value of
//! this type; the extractor navigates it, and the serializer renders it back
//! to text for diagnostics. Numbers are carried as their literal text: the
//! extraction logic never reads a numeric value.

use vstd::pervasive::unreached;
use vstd::prelude::*;

verus! {

/// A JSON document, as the extractor sees it. Object entries keep their
/// source order; a key lookup takes the first matching entry.
#[derive(Debug)]
pub enum Json {
    Null,
    Bool(bool),
    Number(String),
    Str(String),
    Array(Vec<Json>),
    Object(Vec<(String, Json)>),
}

/// First entry bound to `key` among the object entries, if any.
pub open spec fn obj_get(es: Seq<(String, Json)>, key: Seq<char>) -> Option<Json>
    decreases es.len(),
{
    if es.len() == 0 {
        None
    } else if es[0].0@ == key {
        Some(es[0].1)
    } else {
        obj_get(es.drop_first(), key)
    }
}

/// Member of an object under `key`: `None` when `j` is not an object or has
/// no such key.
pub open spec fn json_get(j: Json, key: Seq<char>) -> Option<Json> {
    match j {
        Json::Object(es) => obj_get(es@, key),
        _ => None,
    }
}

/// String member of an object under `key`: `None` when absent or not a
/// string.
pub open spec fn json_get_str(j: Json, key: Seq<char>) -> Option<Seq<char>> {
    match json_get(j, key) {
        Some(Json::Str(s)) => Some(s@),
        _ => None,
    }
}

/// The lowercase hexadecimal digit for `n`, for `n` from 0 to 15.
pub open spec fn hex_digit(n: int) -> char {
    if n == 0 {
        '0'
    } else if n == 1 {
        '1'
    } else if n == 2 {
        '2'
    } else if n == 3 {
        '3'
    } else if n == 4 {
        '4'
    } else if n == 5 {
        '5'
    } else if n == 6 {
        '6'
    } else if n == 7 {
        '7'
    } else if n == 8 {
        '8'
    } else if n == 9 {
        '9'
    } else if n == 10 {
        'a'
    } else if n == 11 {
        'b'
    } else if n == 12 {
        'c'
    } else if n == 13 {
        'd'
    } else if n == 14 {
        'e'
    } else {
        'f'
    }
}

/// How one character appears inside a serialized JSON string: quotes,
/// backslashes and control characters are escaped, all else passes
/// through.
pub open spec fn escape_char(c: char) -> Seq<char> {
    if c == '"' {
        seq!['\\', '"']
    } else if c == '\\' {
        seq!['\\', '\\']
    } else if c == '\n' {
        seq!['\\', 'n']
    } else if c == '\r' {
        seq!['\\', 'r']
    } else if c == '\t' {
        seq!['\\', 't']
    } else if (c as int) < 0x20 {
        seq!['\\', 'u', '0', '0', hex_digit(c as int / 16), hex_digit(c as int % 16)]
    } else {
        seq![c]
    }
}

/// A string's characters as they appear inside its serialized quotes.
pub open spec fn escape_str(s: Seq<char>) -> Seq<char>
    decreases s.len(),
{
    if s.len() == 0 {
        Seq::empty()
    } else {
        escape_char(s[0]) + escape_str(s.drop_first())
    }
}

/// The serialized text of a JSON value, used for error diagnostics.
pub open spec fn json_text(j: Json) -> Seq<char>
    decreases j,
{
    match j {
        Json::Null => seq!['n', 'u', 'l', 'l'],
        Json::Bool(b) => if b {
            seq!['t', 'r', 'u', 'e']
        } else {
            seq!['f', 'a', 'l', 's', 'e']
        },
        Json::Number(n) => n@,
        Json::Str(s) => seq!['"'] + escape_str(s@) + seq!['"'],
        Json::Array(a) => seq!['['] + json_list_text(a@) + seq![']'],
        Json::Object(o) => seq!['{'] + json_obj_text(o@) + seq!['}'],
    }
}

/// The serialized, comma-separated elements of an array.
pub open spec fn json_list_text(items: Seq<Json>) -> Seq<char>
    decreases items,
{
    if items.len() == 0 {
        Seq::empty()
    } else if items.len() == 1 {
        json_text(items[0])
    } else {
        json_text(items[0]) + seq![','] + json_list_text(items.drop_first())
    }
}

/// One serialized `"key":value` object entry.
pub open spec fn json_entry_text(e: (String, Json)) -> Seq<char>
    decreases e,
{
    seq!['"'] + escape_str(e.0@) + seq!['"', ':'] + json_text(e.1)
}

/// The serialized, comma-separated entries of an object.
pub open spec fn json_obj_text(es: Seq<(String, Json)>) -> Seq<char>
    decreases es,
{
    if es.len() == 0 {
        Seq::empty()
    } else if es.len() == 1 {
        json_entry_text(es[0])
    } else {
        json_entry_text(es[0]) + seq![','] + json_obj_text(es.drop_first())
    }
}

/// Escaping distributes over concatenation.
proof fn lemma_escape_concat(a: Seq<char>, b: Seq<char>)
    ensures
        escape_str(a + b) == escape_str(a) + escape_str(b),
    decreases a.len(),
{
    if a.len() == 0 {
        assert(a + b =~= b);
        assert(escape_char(a[0]) + Seq::<char>::empty() =~= escape_char(a[0]));
        assert(escape_str(a) + escape_str(b) =~= escape_str(b));
    } else {
        lemma_escape_concat(a.drop_first(), b);
        assert((a + b).drop_first() =~= a.drop_first() + b);
        assert((a + b)[0] == a[0]);
        assert(escape_char(a[0]) + (escape_str(a.drop_first()) + escape_str(b)) =~= (escape_char(
            a[0],
        ) + escape_str(a.drop_first())) + escape_str(b));
    }
}

/// A single character escapes to exactly its escape sequence.
proof fn lemma_escape_one(c: char)
    ensures
        escape_str(seq![c]) == escape_char(c),
{
    let s = seq![c];
    assert(s[0] == c);
    assert(s.drop_first() =~= Seq::<char>::empty());
    assert(escape_str(Seq::<char>::empty()) == Seq::<char>::empty());
    assert(escape_str(s) == escape_char(c) + Seq::<char>::empty());
    assert(escape_char(c) + Seq::<char>::empty() =~= escape_char(c));
}

/// The escape sequence of a control character that has no short
/// two-character form.
fn control_escape(c: char) -> (r: &'static str)
    requires
        c != '\n' && c != '\r' && c != '\t',
        (c as int) < 0x20,
    ensures
        r@ == escape_char(c),
{
    match c {
        '\u{0}' => {
            proof {
                reveal_strlit("\\u0000");
                assert("\\u0000"@ =~= escape_char(c));
            }
            "\\u0000"
        },
        '\u{1}' => {
            proof {
                reveal_strlit("\\u0001");
                assert("\\u0001"@ =~= escape_char(c));
            }
            "\\u0001"
        },
        '\u{2}' => {
            proof {
                reveal_strlit("\\u0002");
                assert("\\u0002"@ =~= escape_char(c));
            }
            "\\u0002"
        },
        '\u{3}' => {
            proof {
                reveal_strlit("\\u0003");
                assert("\\u0003"@ =~= escape_char(c));
            }
            "\\u0003"
        },
        '\u{4}' => {
            proof {
                reveal_strlit("\\u0004");
                assert("\\u0004"@ =~= escape_char(c));
            }
            "\\u0004"
        },
        '\u{5}' => {
            proof {
                reveal_strlit("\\u0005");
                assert("\\u0005"@ =~= escape_char(c));
            }
            "\\u0005"
        },
        '\u{6}' => {
            proof {
                reveal_strlit("\\u0006");
                assert("\\u0006"@ =~= escape_char(c));
            }
            "\\u0006"
        },
        '\u{7}' => {
            proof {
                reveal_strlit("\\u0007");
                assert("\\u0007"@ =~= escape_char(c));
            }
            "\\u0007"
        },
        '\u{8}' => {
            proof {
                reveal_strlit("\\u0008");
                assert("\\u0008"@ =~= escape_char(c));
            }
            "\\u0008"
        },
        '\u{b}' => {
            proof {
                reveal_strlit("\\u000b");
                assert("\\u000b"@ =~= escape_char(c));
            }
            "\\u000b"
        },
        '\u{c}' => {
            proof {
                reveal_strlit("\\u000c");
                assert("\\u000c"@ =~= escape_char(c));
            }
            "\\u000c"
        },
        '\u{e}' => {
            proof {
                reveal_strlit("\\u000e");
                assert("\\u000e"@ =~= escape_char(c));
            }
            "\\u000e"
        },
        '\u{f}' => {
            proof {
                reveal_strlit("\\u000f");
                assert("\\u000f"@ =~= escape_char(c));
            }
            "\\u000f"
        },
        '\u{10}' => {
            proof {
                reveal_strlit("\\u0010");
                assert("\\u0010"@ =~= escape_char(c));
            }
            "\\u0010"
        },
        '\u{11}' => {
            proof {
                reveal_strlit("\\u0011");
                assert("\\u0011"@ =~= escape_char(c));
            }
            "\\u0011"
        },
        '\u{12}' => {
            proof {
                reveal_strlit("\\u0012");
                assert("\\u0012"@ =~= escape_char(c));
            }
            "\\u0012"
        },
        '\u{13}' => {
            proof {
                reveal_strlit("\\u0013");
                assert("\\u0013"@ =~= escape_char(c));
            }
            "\\u0013"
        },
        '\u{14}' => {
            proof {
                reveal_strlit("\\u0014");
                assert("\\u0014"@ =~= escape_char(c));
            }
            "\\u0014"
        },
        '\u{15}' => {
            proof {
                reveal_strlit("\\u0015");
                assert("\\u0015"@ =~= escape_char(c));
            }
            "\\u0015"
        },
        '\u{16}' => {
            proof {
                reveal_strlit("\\u0016");
                assert("\\u0016"@ =~= escape_char(c));
            }
            "\\u0016"
        },
        '\u{17}' => {
            proof {
                reveal_strlit("\\u0017");
                assert("\\u0017"@ =~= escape_char(c));
            }
            "\\u0017"
        },
        '\u{18}' => {
            proof {
                reveal_strlit("\\u0018");
                assert("\\u0018"@ =~= escape_char(c));
            }
            "\\u0018"
        },
        '\u{19}' => {
            proof {
                reveal_strlit("\\u0019");
                assert("\\u0019"@ =~= escape_char(c));
            }
            "\\u0019"
        },
        '\u{1a}' => {
            proof {
                reveal_strlit("\\u001a");
                assert("\\u001a"@ =~= escape_char(c));
            }
            "\\u001a"
        },
        '\u{1b}' => {
            proof {
                reveal_strlit("\\u001b");
                assert("\\u001b"@ =~= escape_char(c));
            }
            "\\u001b"
        },
        '\u{1c}' => {
            proof {
                reveal_strlit("\\u001c");
                assert("\\u001c"@ =~= escape_char(c));
            }
            "\\u001c"
        },
        '\u{1d}' => {
            proof {
                reveal_strlit("\\u001d");
                assert("\\u001d"@ =~= escape_char(c));
            }
            "\\u001d"
        },
        '\u{1e}' => {
            proof {
                reveal_strlit("\\u001e");
                assert("\\u001e"@ =~= escape_char(c));
            }
            "\\u001e"
        },
        '\u{1f}' => {
            proof {
                reveal_strlit("\\u001f");
                assert("\\u001f"@ =~= escape_char(c));
            }
            "\\u001f"
        },
        _ => unreached(),
    }
}

/// Renders a string's characters as they stand inside serialized quotes.
fn escape_string(s: &String) -> (r: String)
    ensures
        r@ == escape_str(s@),
{
    let text = s.as_str();
    let n = text.unicode_len();
    let mut out = String::new();
    let mut i: usize = 0;
    proof {
        assert(s@.take(0) =~= Seq::<char>::empty());
    }
    while i < n
        invariant
            i <= n,
            n == s@.len(),
            text@ == s@,
            out@ == escape_str(s@.take(i as int)),
        decreases n - i,
    {
        let c = text.get_char(i);
        proof {
            assert(s@.take(i + 1) =~= s@.take(i as int) + seq![s@[i as int]]);
            lemma_escape_concat(s@.take(i as int), seq![s@[i as int]]);
            lemma_escape_one(s@[i as int]);
        }
        if c == '"' {
            proof {
                reveal_strlit("\\\"");
            }
            out.append("\\\"");
            assert("\\\""@ =~= escape_char(s@[i as int]));
        } else if c == '\\' {
            proof {
                reveal_strlit("\\\\");
            }
            out.append("\\\\");
            assert("\\\\"@ =~= escape_char(s@[i as int]));
        } else if c == '\n' {
            proof {
                reveal_strlit("\\n");
            }
            out.append("\\n");
            assert("\\n"@ =~= escape_char(s@[i as int]));
        } else if c == '\r' {
            proof {
                reveal_strlit("\\r");
            }
            out.append("\\r");
            assert("\\r"@ =~= escape_char(s@[i as int]));
        } else if c == '\t' {
            proof {
                reveal_strlit("\\t");
            }
            out.append("\\t");
            assert("\\t"@ =~= escape_char(s@[i as int]));
        } else if (c as u32) < 0x20 {
            let e = control_escape(c);
            out.append(e);
            assert(e@ == escape_char(s@[i as int]));
        } else {
            let one = text.substring_char(i, i + 1);
            out.append(one);
            assert(one@ =~= escape_char(s@[i as int]));
        }
        i = i + 1;
    }
    proof {
        assert(s@.take(n as int) =~= s@);
    }
    out
}

impl Json {
    /// The serialized text of this value; serves error diagnostics.
    pub fn to_text(&self) -> (r: String)
        ensures
            r@ == json_text(*self),
        decreases *self,
    {
        match self {
            Json::Null => {
                proof {
                    reveal_strlit("null");
                }
                let r = "null".to_owned();
                assert(r@ =~= json_text(*self));
                r
            },
            Json::Bool(b) => {
                if *b {
                    proof {
                        reveal_strlit("true");
                    }
                    let r = "true".to_owned();
                    assert(r@ =~= json_text(*self));
                    r
                } else {
                    proof {
                        reveal_strlit("false");
                    }
                    let r = "false".to_owned();
                    assert(r@ =~= json_text(*self));
                    r
                }
            },
            Json::Number(n) => n.clone(),
            Json::Str(s) => {
                proof {
                    reveal_strlit("\"");
                }
                let r = String::from_str("\"").concat(escape_string(s).as_str()).concat("\"");
                assert(r@ =~= json_text(*self));
                r
            },
            Json::Array(a) => {
                proof {
                    reveal_strlit("[");
                    reveal_strlit("]");
                }
                let items = array_text(a, 0);
                proof {
                    assert(a@.skip(0) =~= a@);
                }
                let r = String::from_str("[").concat(items.as_str()).concat("]");
                assert(r@ =~= json_text(*self));
                r
            },
            Json::Object(o) => {
                proof {
                    reveal_strlit("{");
                    reveal_strlit("}");
                }
                let entries = obj_text(o, 0);
                proof {
                    assert(o@.skip(0) =~= o@);
                }
                let r = String::from_str("{").concat(entries.as_str()).concat("}");
                assert(r@ =~= json_text(*self));
                r
            },
        }
    }
}

/// Serialized text of the array elements from `i` on.
fn array_text(a: &Vec<Json>, i: usize) -> (r: String)
    requires
        i <= a@.len(),
    ensures
        r@ == json_list_text(a@.skip(i as int)),
    decreases a@, a@.len() - i,
{
    if i >= a.len() {
        proof {
            assert(a@.skip(i as int) =~= Seq::<Json>::empty());
        }
        String::new()
    } else if i + 1 == a.len() {
        let r = a[i].to_text();
        proof {
            assert(a@.skip(i as int).len() == 1);
            assert(a@.skip(i as int)[0] == a@[i as int]);
        }
        r
    } else {
        proof {
            reveal_strlit(",");
        }
        let head = a[i].to_text();
        let tail = array_text(a, i + 1);
        let r = head.concat(",").concat(tail.as_str());
        proof {
            assert(a@.skip(i as int)[0] == a@[i as int]);
            assert(a@.skip(i as int).drop_first() =~= a@.skip(i + 1));
            assert(","@ =~= seq![',']);
        }
        r
    }
}

/// Serialized text of the object entries from `i` on.
fn obj_text(o: &Vec<(String, Json)>, i: usize) -> (r: String)
    requires
        i <= o@.len(),
    ensures
        r@ == json_obj_text(o@.skip(i as int)),
    decreases o@, o@.len() - i,
{
    if i >= o.len() {
        proof {
            assert(o@.skip(i as int) =~= Seq::<(String, Json)>::empty());
        }
        String::new()
    } else {
        proof {
            reveal_strlit("\"");
            reveal_strlit("\":");
        }
        let key_part = escape_string(&o[i].0);
        let value_part = o[i].1.to_text();
        let entry = String::from_str("\"").concat(key_part.as_str()).concat("\":").concat(
            value_part.as_str(),
        );
        proof {
            assert(o@.skip(i as int)[0] == o@[i as int]);
            assert("\""@ =~= seq!['"']);
            assert("\":"@ =~= seq!['"', ':']);
            assert(entry@ =~= json_entry_text(o@[i as int]));
        }
        if i + 1 == o.len() {
            proof {
                assert(o@.skip(i as int).len() == 1);
            }
            entry
        } else {
            proof {
                reveal_strlit(",");
            }
            let tail = obj_text(o, i + 1);
            let r = entry.concat(",").concat(tail.as_str());
            proof {
                assert(o@.skip(i as int).drop_first() =~= o@.skip(i + 1));
                assert(","@ =~= seq![',']);
            }
            r
        }
    }
}

impl Json {
    /// Member of this object under `key`; `None` when this is not an object
    /// or no entry has the key.
    pub fn get<'a>(&'a self, key: &str) -> (r: Option<&'a Json>)
        ensures
            match r {
                Some(v) => json_get(*self, key@) == Some(*v),
                None => json_get(*self, key@) is None,
            },
    {
        match self {
            Json::Object(es) => {
                let wanted: String = key.to_owned();
                let mut idx: usize = 0;
                proof {
                    assert(es@.skip(0) =~= es@);
                }
                loop
                    invariant
                        idx <= es@.len(),
                        wanted@ == key@,
                        *self == Json::Object(*es),
                        obj_get(es@, key@) == obj_get(es@.skip(idx as int), key@),
                    decreases es@.len() - idx,
                {
                    if idx >= es.len() {
                        assert(es@.skip(idx as int).len() == 0);
                        return None;
                    }
                    if es[idx].0 == wanted {
                        assert(es@.skip(idx as int)[0] == es@[idx as int]);
                        return Some(&es[idx].1);
                    }
                    proof {
                        let s = es@.skip(idx as int);
                        assert(s[0] == es@[idx as int]);
                        assert(s.drop_first() =~= es@.skip(idx + 1));
                    }
                    idx = idx + 1;
                }
            },
            _ => None,
        }
    }

    /// String member of this object under `key`; `None` when absent or not a
    /// string.
    pub fn get_str<'a>(&'a self, key: &str) -> (r: Option<&'a String>)
        ensures
            match r {
                Some(s) => json_get_str(*self, key@) == Some(s@),
                None => json_get_str(*self, key@) is None,
            },
    {
        match self.get(key) {
            Some(v) => match v {
                Json::Str(s) => Some(s),
                _ => None,
            },
            None => None,
        }
    }
}

} // verus!
