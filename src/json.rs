use vstd::prelude::*;

use crate::protocol::strings_view;

verus! {

/// What serde_json writes for a string: the JSON string literal.
pub uninterp spec fn json_quoted(s: Seq<char>) -> Seq<char>;

/// What serde_json reads back as a string from a JSON text, if it is a string literal.
pub uninterp spec fn json_string_value(t: Seq<char>) -> Option<Seq<char>>;

/// The inside of a string literal: each character is either an escape
/// (a backslash and the character after it) or neither a quote nor a backslash.
pub open spec fn escaped_body(b: Seq<char>) -> bool
    decreases b.len(),
{
    if b.len() == 0 {
        true
    } else if b[0] == '\\' {
        b.len() >= 2 && escaped_body(b.skip(2))
    } else {
        b[0] != '"' && escaped_body(b.skip(1))
    }
}

/// A JSON string literal as serde_json writes one.
pub open spec fn string_token(t: Seq<char>) -> bool {
    &&& t.len() >= 2
    &&& t[0] == '"'
    &&& t[t.len() - 1] == '"'
    &&& escaped_body(t.subrange(1, t.len() - 1))
}

/// Relies on serde_json::to_string on a `str`: a quoted literal in which `"`, `\`
/// and control characters are escaped, and which serde_json reads back as `s`.
#[verifier::external_body]
pub(crate) fn quote(s: &str) -> (r: String)
    ensures
        r@ == json_quoted(s@),
        string_token(r@),
        json_string_value(r@) == Some(s@),
{
    serde_json::to_string(s).unwrap_or_default()
}

/// Relies on serde_json::from_str::<String>: the string that a JSON text denotes.
#[verifier::external_body]
pub(crate) fn unquote(t: &str) -> (r: Option<String>)
    ensures
        match r {
            Some(v) => json_string_value(t@) == Some(v@),
            None => json_string_value(t@) is None,
        },
{
    serde_json::from_str::<String>(t).ok()
}


/// A member value as this protocol uses them: `null`, a string, or a list of strings.
pub enum FieldModel {
    Null,
    Text(Seq<char>),
    List(Seq<Seq<char>>),
}

/// A parsed member value.
#[derive(Clone, Debug)]
pub enum Field {
    Null,
    Text(String),
    List(Vec<String>),
}

impl View for Field {
    type V = FieldModel;

    open spec fn view(&self) -> FieldModel {
        match self {
            Field::Null => FieldModel::Null,
            Field::Text(t) => FieldModel::Text(t@),
            Field::List(l) => FieldModel::List(strings_view(l@)),
        }
    }
}

/// The members of a JSON object, in order of appearance.
pub type Members = Seq<(Seq<char>, FieldModel)>;

/// Index of the quote that closes a string literal whose inside starts at `i`.
pub open spec fn string_end(s: Seq<char>, i: int) -> Option<int>
    decreases s.len() - i,
{
    if i < 0 || i >= s.len() {
        None
    } else if s[i] == '"' {
        Some(i)
    } else if s[i] == '\\' {
        if i + 1 >= s.len() {
            None
        } else {
            string_end(s, i + 2)
        }
    } else {
        string_end(s, i + 1)
    }
}

proof fn lemma_string_end_bounds(s: Seq<char>, i: int)
    ensures
        string_end(s, i) matches Some(e) ==> i <= e < s.len() && s[e] == '"',
    decreases s.len() - i,
{
    if 0 <= i < s.len() && s[i] != '"' {
        if s[i] == '\\' {
            if i + 1 < s.len() {
                lemma_string_end_bounds(s, i + 2);
            }
        } else {
            lemma_string_end_bounds(s, i + 1);
        }
    }
}

pub open spec fn is_ws(c: char) -> bool {
    c == ' ' || c == '\t' || c == '\n' || c == '\r'
}

/// The first index from `i` on that does not hold whitespace.
pub open spec fn ws_end(s: Seq<char>, i: int) -> int
    decreases s.len() - i,
{
    if 0 <= i < s.len() && is_ws(s[i]) {
        ws_end(s, i + 1)
    } else {
        i
    }
}

proof fn lemma_ws_end_bounds(s: Seq<char>, i: int)
    ensures
        i <= ws_end(s, i),
        0 <= i <= s.len() ==> ws_end(s, i) <= s.len(),
    decreases s.len() - i,
{
    if 0 <= i < s.len() && is_ws(s[i]) {
        lemma_ws_end_bounds(s, i + 1);
    }
}

proof fn lemma_parse_string_bounds(s: Seq<char>, i: int)
    ensures
        parse_string(s, i) matches Some(p) ==> i < p.1 <= s.len(),
{
    lemma_ws_end_bounds(s, i);
    lemma_string_end_bounds(s, ws_end(s, i) + 1);
}

proof fn lemma_parse_items_bounds(s: Seq<char>, i: int)
    ensures
        parse_items(s, i) matches Some(p) ==> i < p.1 <= s.len(),
    decreases s.len() - i,
{
    lemma_parse_string_bounds(s, i);
    if let Some((v, j0)) = parse_string(s, i) {
        lemma_ws_end_bounds(s, j0);
        let j = ws_end(s, j0);
        if 0 <= j < s.len() && s[j] == ',' && j > i {
            lemma_parse_items_bounds(s, j + 1);
        }
    }
}

proof fn lemma_parse_value_bounds(s: Seq<char>, i: int)
    ensures
        parse_value(s, i) matches Some(p) ==> i < p.1 <= s.len(),
{
    lemma_ws_end_bounds(s, i);
    let w = ws_end(s, i);
    lemma_parse_string_bounds(s, w);
    lemma_parse_items_bounds(s, w + 1);
    lemma_ws_end_bounds(s, w + 1);
}

/// A string literal at `i`, after any whitespace: its value and the index after it.
pub open spec fn parse_string(s: Seq<char>, i: int) -> Option<(Seq<char>, int)> {
    let w = ws_end(s, i);
    if 0 <= w < s.len() && s[w] == '"' {
        match string_end(s, w + 1) {
            Some(e) => match json_string_value(s.subrange(w, e + 1)) {
                Some(v) => Some((v, e + 1)),
                None => None,
            },
            None => None,
        }
    } else {
        None
    }
}

/// The items of a non-empty list of strings from `i` through the closing bracket.
pub open spec fn parse_items(s: Seq<char>, i: int) -> Option<(Seq<Seq<char>>, int)>
    decreases s.len() - i,
{
    match parse_string(s, i) {
        Some((v, j0)) => {
            let j = ws_end(s, j0);
            if 0 <= j < s.len() && s[j] == ']' {
                Some((seq![v], j + 1))
            } else if 0 <= j < s.len() && s[j] == ',' && j > i {
                match parse_items(s, j + 1) {
                    Some((vs, k)) => Some((seq![v] + vs, k)),
                    None => None,
                }
            } else {
                None
            }
        },
        None => None,
    }
}

pub open spec fn is_null_at(s: Seq<char>, i: int) -> bool {
    &&& 0 <= i
    &&& i + 4 <= s.len()
    &&& s[i] == 'n'
    &&& s[i + 1] == 'u'
    &&& s[i + 2] == 'l'
    &&& s[i + 3] == 'l'
}

/// A member value at `i`, after any whitespace: its model and the index after it.
pub open spec fn parse_value(s: Seq<char>, i: int) -> Option<(FieldModel, int)> {
    let w = ws_end(s, i);
    if is_null_at(s, w) {
        Some((FieldModel::Null, w + 4))
    } else if 0 <= w < s.len() && s[w] == '[' {
        let k = ws_end(s, w + 1);
        if 0 <= k < s.len() && s[k] == ']' {
            Some((FieldModel::List(Seq::empty()), k + 1))
        } else {
            match parse_items(s, w + 1) {
                Some((vs, j)) => Some((FieldModel::List(vs), j)),
                None => None,
            }
        }
    } else {
        match parse_string(s, w) {
            Some((v, j)) => Some((FieldModel::Text(v), j)),
            None => None,
        }
    }
}

/// The members from `i` to the closing brace, after which only whitespace may follow.
pub open spec fn parse_members(s: Seq<char>, i: int) -> Option<Members>
    decreases s.len() - i,
{
    match parse_string(s, i) {
        Some((k, j0)) => {
            let j = ws_end(s, j0);
            if 0 <= j < s.len() && s[j] == ':' {
                match parse_value(s, j + 1) {
                    Some((v, m0)) => {
                        let m = ws_end(s, m0);
                        if 0 <= m < s.len() && s[m] == '}' && ws_end(s, m + 1) == s.len() {
                            Some(seq![(k, v)])
                        } else if 0 <= m < s.len() && s[m] == ',' && m > i {
                            match parse_members(s, m + 1) {
                                Some(ms) => Some(seq![(k, v)] + ms),
                                None => None,
                            }
                        } else {
                            None
                        }
                    },
                    None => None,
                }
            } else {
                None
            }
        },
        None => None,
    }
}

/// The members of a JSON object that makes up the whole text, whitespace aside.
pub open spec fn parse_object(s: Seq<char>) -> Option<Members> {
    let i = ws_end(s, 0);
    let j = ws_end(s, i + 1);
    if 0 <= i < s.len() && s[i] == '{' {
        if 0 <= j < s.len() && s[j] == '}' && ws_end(s, j + 1) == s.len() {
            Some(Seq::empty())
        } else {
            parse_members(s, i + 1)
        }
    } else {
        None
    }
}

/// The value of the first member named `k`.
pub open spec fn lookup(ms: Members, k: Seq<char>) -> Option<FieldModel>
    decreases ms.len(),
{
    if ms.len() == 0 {
        None
    } else if ms[0].0 == k {
        Some(ms[0].1)
    } else {
        lookup(ms.skip(1), k)
    }
}

fn char_at(s: &str, i: usize, c: char) -> (r: bool)
    ensures
        r == (i < s@.len() && s@[i as int] == c),
        s@.len() <= usize::MAX,
{
    if i < s.unicode_len() {
        s.get_char(i) == c
    } else {
        false
    }
}

fn skip_ws(s: &str, i: usize) -> (r: usize)
    ensures
        r as int == ws_end(s@, i as int),
{
    let n = s.unicode_len();
    let mut k: usize = i;
    while k < n
        invariant
            n == s@.len(),
            i <= k,
            ws_end(s@, i as int) == ws_end(s@, k as int),
        decreases n - k,
    {
        let c = s.get_char(k);
        if c == ' ' || c == '\t' || c == '\n' || c == '\r' {
            k = k + 1;
        } else {
            return k;
        }
    }
    k
}

fn scan_string_end(s: &str, i: usize) -> (r: Option<usize>)
    ensures
        match string_end(s@, i as int) {
            Some(e) => r == Some(e as usize),
            None => r is None,
        },
{
    let n = s.unicode_len();
    let mut k: usize = i;
    while k < n
        invariant
            n == s@.len(),
            i <= k,
            string_end(s@, i as int) == string_end(s@, k as int),
        decreases n - k,
    {
        let c = s.get_char(k);
        if c == '"' {
            return Some(k);
        } else if c == '\\' {
            if n - k < 2 {
                return None;
            }
            k = k + 2;
        } else {
            k = k + 1;
        }
    }
    None
}

/// Parses a string literal at `i`.
pub fn read_string(s: &str, i: usize) -> (r: Option<(String, usize)>)
    ensures
        match parse_string(s@, i as int) {
            Some((v, j)) => r matches Some(p) && p.0@ == v && p.1 == j,
            None => r is None,
        },
{
    let w = skip_ws(s, i);
    if !char_at(s, w, '"') {
        return None;
    }
    proof {
        lemma_string_end_bounds(s@, w + 1);
    }
    match scan_string_end(s, w + 1) {
        Some(e) => {
            let tok = s.substring_char(w, e + 1);
            match unquote(tok) {
                Some(v) => Some((v, e + 1)),
                None => None,
            }
        },
        None => None,
    }
}

/// Parses the items of a non-empty list of strings at `i`.
pub fn read_items(s: &str, i: usize) -> (r: Option<(Vec<String>, usize)>)
    ensures
        match parse_items(s@, i as int) {
            Some((vs, j)) => r matches Some(p) && strings_view(p.0@) == vs && p.1 == j,
            None => r is None,
        },
    decreases s@.len() - i,
{
    proof {
        lemma_parse_string_bounds(s@, i as int);
    }
    match read_string(s, i) {
        Some((v, j0)) => {
            let j = skip_ws(s, j0);
            if char_at(s, j, ']') {
                let mut out: Vec<String> = Vec::new();
                out.push(v);
                assert(strings_view(out@) =~= seq![v@]);
                Some((out, j + 1))
            } else if char_at(s, j, ',') && j > i {
                match read_items(s, j + 1) {
                    Some((rest, k)) => {
                        let mut out: Vec<String> = Vec::new();
                        out.push(v);
                        let ghost rest_model = strings_view(rest@);
                        let mut rest = rest;
                        out.append(&mut rest);
                        assert(strings_view(out@) =~= seq![v@] + rest_model);
                        Some((out, k))
                    },
                    None => None,
                }
            } else {
                None
            }
        },
        None => None,
    }
}

pub open spec fn members_view(v: Seq<(String, Field)>) -> Members {
    v.map_values(|p: (String, Field)| (p.0@, p.1@))
}

/// Parses the members from `i` through the closing brace that ends the text.
pub fn read_members(s: &str, i: usize) -> (r: Option<Vec<(String, Field)>>)
    ensures
        match parse_members(s@, i as int) {
            Some(ms) => r matches Some(v) && members_view(v@) == ms,
            None => r is None,
        },
    decreases s@.len() - i,
{
    let n = s.unicode_len();
    proof {
        lemma_parse_string_bounds(s@, i as int);
    }
    match read_string(s, i) {
        Some((k, j0)) => {
            let j = skip_ws(s, j0);
            if !char_at(s, j, ':') {
                return None;
            }
            proof {
                lemma_parse_value_bounds(s@, j + 1);
            }
            match read_value(s, j + 1) {
                Some((v, m0)) => {
                    let ghost kv = (k@, v@);
                    let m = skip_ws(s, m0);
                    if char_at(s, m, '}') && skip_ws(s, m + 1) == n {
                        let mut out: Vec<(String, Field)> = Vec::new();
                        out.push((k, v));
                        assert(members_view(out@) =~= seq![kv]);
                        Some(out)
                    } else if char_at(s, m, ',') && m > i {
                        match read_members(s, m + 1) {
                            Some(rest) => {
                                let ghost rest_model = members_view(rest@);
                                let mut out: Vec<(String, Field)> = Vec::new();
                                out.push((k, v));
                                let mut rest = rest;
                                out.append(&mut rest);
                                assert(members_view(out@) =~= seq![kv] + rest_model);
                                Some(out)
                            },
                            None => None,
                        }
                    } else {
                        None
                    }
                },
                None => None,
            }
        },
        None => None,
    }
}

/// Parses a text that is one JSON object into its members.
pub fn read_object(s: &str) -> (r: Option<Vec<(String, Field)>>)
    ensures
        match parse_object(s@) {
            Some(ms) => r matches Some(v) && members_view(v@) == ms,
            None => r is None,
        },
{
    let n = s.unicode_len();
    let i = skip_ws(s, 0);
    if !char_at(s, i, '{') {
        return None;
    }
    let j = skip_ws(s, i + 1);
    if char_at(s, j, '}') && skip_ws(s, j + 1) == n {
        let out: Vec<(String, Field)> = Vec::new();
        assert(members_view(out@) =~= Seq::empty());
        Some(out)
    } else {
        read_members(s, i + 1)
    }
}

/// Whether two texts are equal.
pub fn same_text(a: &str, b: &str) -> (r: bool)
    ensures
        r == (a@ == b@),
{
    let n = a.unicode_len();
    if n != b.unicode_len() {
        return false;
    }
    let mut k: usize = 0;
    while k < n
        invariant
            n == a@.len(),
            n == b@.len(),
            k <= n,
            forall|t: int| 0 <= t < k ==> a@[t] == b@[t],
        decreases n - k,
    {
        if a.get_char(k) != b.get_char(k) {
            return false;
        }
        k = k + 1;
    }
    assert(a@ =~= b@);
    true
}

/// The value of the first member named `key`.
pub fn find_member<'a>(ms: &'a Vec<(String, Field)>, key: &str) -> (r: Option<&'a Field>)
    ensures
        match lookup(members_view(ms@), key@) {
            Some(f) => r matches Some(x) && x@ == f,
            None => r is None,
        },
{
    let mut k: usize = 0;
    assert(members_view(ms@).skip(0) =~= members_view(ms@));
    while k < ms.len()
        invariant
            k <= ms@.len(),
            lookup(members_view(ms@), key@) == lookup(members_view(ms@).skip(k as int), key@),
        decreases ms@.len() - k,
    {
        let ghost tail = members_view(ms@).skip(k as int);
        assert(tail.skip(1) =~= members_view(ms@).skip(k + 1));
        if same_text(ms[k].0.as_str(), key) {
            return Some(&ms[k].1);
        }
        k = k + 1;
    }
    None
}

/// Parses a member value at `i`.
pub fn read_value(s: &str, i: usize) -> (r: Option<(Field, usize)>)
    ensures
        match parse_value(s@, i as int) {
            Some((v, j)) => r matches Some(p) && p.0@ == v && p.1 == j,
            None => r is None,
        },
{
    let n = s.unicode_len();
    let w = skip_ws(s, i);
    if w >= n {
        return None;
    }
    proof {
        lemma_parse_items_bounds(s@, w + 1);
    }
    if n - w >= 4 && char_at(s, w, 'n') && char_at(s, w + 1, 'u') && char_at(s, w + 2, 'l')
        && char_at(s, w + 3, 'l') {
        Some((Field::Null, w + 4))
    } else if char_at(s, w, '[') {
        let k = skip_ws(s, w + 1);
        if char_at(s, k, ']') {
            let empty: Vec<String> = Vec::new();
            assert(strings_view(empty@) =~= Seq::<Seq<char>>::empty());
            Some((Field::List(empty), k + 1))
        } else {
            match read_items(s, w + 1) {
                Some((vs, j)) => Some((Field::List(vs), j)),
                None => None,
            }
        }
    } else {
        match read_string(s, w) {
            Some((v, j)) => Some((Field::Text(v), j)),
            None => None,
        }
    }
}

} // verus!
