use vstd::prelude::*;
use vstd::string::*;

use crate::json::{
    find_member, ws_end, json_quoted, json_string_value, lookup, parse_items, parse_object, parse_string,
    parse_members, parse_value, quote, read_object, same_text, string_end, string_token,
    escaped_body, Field, FieldModel, Members,
};
use crate::protocol::{
    strings_view, ChatError, ChatMessage, Envelope, EnvelopeModel, MessageModel, MsgTypes,
};

verus! {

/// The wire name of an envelope kind.
pub open spec fn tag_name(k: MsgTypes) -> Seq<char> {
    match k {
        MsgTypes::Users => "users"@,
        MsgTypes::Register => "register"@,
        MsgTypes::Message => "message"@,
    }
}

/// The envelope kind that a wire name denotes.
pub open spec fn tag_of(t: Seq<char>) -> Option<MsgTypes> {
    if t == "users"@ {
        Some(MsgTypes::Users)
    } else if t == "register"@ {
        Some(MsgTypes::Register)
    } else if t == "message"@ {
        Some(MsgTypes::Message)
    } else {
        None
    }
}

/// An optional string member: absent or `null` is `Some(None)`; a list is ill-typed (`None`).
pub open spec fn text_member(f: Option<FieldModel>) -> Option<Option<Seq<char>>> {
    match f {
        None => Some(None),
        Some(FieldModel::Null) => Some(None),
        Some(FieldModel::Text(t)) => Some(Some(t)),
        Some(FieldModel::List(_)) => None,
    }
}

/// An optional list member: absent or `null` is `Some(None)`; a string is ill-typed (`None`).
pub open spec fn list_member(f: Option<FieldModel>) -> Option<Option<Seq<Seq<char>>>> {
    match f {
        None => Some(None),
        Some(FieldModel::Null) => Some(None),
        Some(FieldModel::List(l)) => Some(Some(l)),
        Some(FieldModel::Text(_)) => None,
    }
}

/// The envelope that an object's members describe, if they describe a well-formed one.
pub open spec fn envelope_of(ms: Members) -> Option<EnvelopeModel> {
    match (lookup(ms, "messageType"@), list_member(lookup(ms, "dataArray"@)), text_member(lookup(ms, "data"@))) {
        (Some(FieldModel::Text(t)), Some(a), Some(d)) => match tag_of(t) {
            Some(k) => {
                let m = EnvelopeModel { message_type: k, data_array: a, data: d };
                if m.wf() {
                    Some(m)
                } else {
                    None
                }
            },
            None => None,
        },
        _ => None,
    }
}

/// The envelope that a wire text denotes, if any.
pub open spec fn decode_model(s: Seq<char>) -> Option<EnvelopeModel> {
    match parse_object(s) {
        Some(ms) => envelope_of(ms),
        None => None,
    }
}

/// The chat line that an object's members describe: both members must be strings.
pub open spec fn chat_of(ms: Members) -> Option<MessageModel> {
    match (lookup(ms, "from"@), lookup(ms, "message"@)) {
        (Some(FieldModel::Text(f)), Some(FieldModel::Text(t))) => Some(MessageModel { from: f, message: t }),
        _ => None,
    }
}

/// The chat line that a payload text denotes, if any.
pub open spec fn decode_chat_model(s: Seq<char>) -> Option<MessageModel> {
    match parse_object(s) {
        Some(ms) => chat_of(ms),
        None => None,
    }
}

/// Decodes the payload of a `Message` envelope into a chat line.
pub fn decode_chat_message(text: &str) -> (r: Result<ChatMessage, ChatError>)
    ensures
        match decode_chat_model(text@) {
            Some(m) => r matches Ok(c) && c@ == m,
            None => r == Err::<ChatMessage, ChatError>(ChatError::MalformedPayload),
        },
{
    let ms = match read_object(text) {
        Some(ms) => ms,
        None => return Err(ChatError::MalformedPayload),
    };
    let from = match find_member(&ms, "from") {
        Some(Field::Text(t)) => t.clone(),
        _ => return Err(ChatError::MalformedPayload),
    };
    let message = match find_member(&ms, "message") {
        Some(Field::Text(t)) => t.clone(),
        _ => return Err(ChatError::MalformedPayload),
    };
    Ok(ChatMessage { from, message })
}

fn read_tag(t: &str) -> (r: Option<MsgTypes>)
    ensures
        r == tag_of(t@),
{
    if same_text(t, "users") {
        Some(MsgTypes::Users)
    } else if same_text(t, "register") {
        Some(MsgTypes::Register)
    } else if same_text(t, "message") {
        Some(MsgTypes::Message)
    } else {
        None
    }
}

fn copy_strings(l: &Vec<String>) -> (r: Vec<String>)
    ensures
        strings_view(r@) == strings_view(l@),
{
    let mut out: Vec<String> = Vec::new();
    let mut k: usize = 0;
    while k < l.len()
        invariant
            k <= l@.len(),
            out@.len() == k,
            forall|t: int| 0 <= t < k ==> out@[t]@ == l@[t]@,
        decreases l@.len() - k,
    {
        out.push(l[k].clone());
        k = k + 1;
    }
    assert(strings_view(out@) =~= strings_view(l@));
    out
}

/// Decodes a wire text into an envelope.
pub fn decode(text: &str) -> (r: Result<Envelope, ChatError>)
    ensures
        match decode_model(text@) {
            Some(m) => r matches Ok(e) && e@ == m,
            None => r == Err::<Envelope, ChatError>(ChatError::MalformedEnvelope),
        },
{
    let ms = match read_object(text) {
        Some(ms) => ms,
        None => return Err(ChatError::MalformedEnvelope),
    };
    let message_type = match find_member(&ms, "messageType") {
        Some(Field::Text(t)) => match read_tag(t.as_str()) {
            Some(k) => k,
            None => return Err(ChatError::MalformedEnvelope),
        },
        _ => return Err(ChatError::MalformedEnvelope),
    };
    let data_array = match find_member(&ms, "dataArray") {
        None => None,
        Some(Field::Null) => None,
        Some(Field::List(l)) => Some(copy_strings(l)),
        Some(Field::Text(_)) => return Err(ChatError::MalformedEnvelope),
    };
    let data = match find_member(&ms, "data") {
        None => None,
        Some(Field::Null) => None,
        Some(Field::Text(t)) => Some(t.clone()),
        Some(Field::List(_)) => return Err(ChatError::MalformedEnvelope),
    };
    let well_formed = match message_type {
        MsgTypes::Users => data_array.is_some() && data.is_none(),
        _ => data.is_some() && data_array.is_none(),
    };
    if !well_formed {
        return Err(ChatError::MalformedEnvelope);
    }
    Ok(Envelope { message_type, data_array, data })
}


pub open spec fn null_text() -> Seq<char> {
    seq!['n', 'u', 'l', 'l']
}

/// The items of a non-empty list, each quoted, comma separated, with the closing bracket.
pub open spec fn items_text(l: Seq<Seq<char>>) -> Seq<char>
    decreases l.len(),
{
    if l.len() == 0 {
        seq![']']
    } else if l.len() == 1 {
        json_quoted(l[0]) + seq![']']
    } else {
        json_quoted(l[0]) + seq![','] + items_text(l.skip(1))
    }
}

/// An optional list as a member value.
pub open spec fn list_text(a: Option<Seq<Seq<char>>>) -> Seq<char> {
    match a {
        None => null_text(),
        Some(l) => seq!['['] + items_text(l),
    }
}

/// An optional string as a member value.
pub open spec fn opt_text(d: Option<Seq<char>>) -> Seq<char> {
    match d {
        None => null_text(),
        Some(t) => json_quoted(t),
    }
}

/// The wire text of an envelope: its three members in a fixed order.
pub open spec fn encode_model(m: EnvelopeModel) -> Seq<char> {
    seq!['{'] + json_quoted("messageType"@) + seq![':'] + json_quoted(tag_name(m.message_type))
        + seq![','] + json_quoted("dataArray"@) + seq![':'] + list_text(m.data_array)
        + seq![','] + json_quoted("data"@) + seq![':'] + opt_text(m.data) + seq!['}']
}

/// serde_json writes `x` as a literal that reads back as `x`.
pub open spec fn quotes_back(x: Seq<char>) -> bool {
    string_token(json_quoted(x)) && json_string_value(json_quoted(x)) == Some(x)
}

proof fn lemma_body_end(s: Seq<char>, i: int, b: Seq<char>)
    requires
        escaped_body(b),
        0 <= i,
        i + b.len() < s.len(),
        s.subrange(i, i + b.len()) == b,
        s[i + b.len()] == '"',
    ensures
        string_end(s, i) == Some(i + b.len()),
    decreases b.len(),
{
    if b.len() > 0 {
        assert(s[i] == s.subrange(i, i + b.len())[0]);
        if b[0] == '\\' {
            assert(s[i + 1] == s.subrange(i, i + b.len())[1]);
            assert(s.subrange(i + 2, i + b.len()) =~= b.skip(2));
            lemma_body_end(s, i + 2, b.skip(2));
        } else {
            assert(s.subrange(i + 1, i + b.len()) =~= b.skip(1));
            lemma_body_end(s, i + 1, b.skip(1));
        }
    }
}

proof fn lemma_parse_quoted(s: Seq<char>, i: int, x: Seq<char>)
    requires
        quotes_back(x),
        0 <= i,
        i + json_quoted(x).len() <= s.len(),
        s.subrange(i, i + json_quoted(x).len()) == json_quoted(x),
    ensures
        parse_string(s, i) == Some((x, i + json_quoted(x).len())),
{
    let q = json_quoted(x);
    let b = q.subrange(1, q.len() - 1);
    assert(s[i] == q[0]);
    assert(s[i + q.len() - 1] == q[q.len() - 1]);
    assert(s.subrange(i + 1, i + 1 + b.len()) =~= b);
    lemma_body_end(s, i + 1, b);
}

proof fn lemma_parse_items_text(s: Seq<char>, i: int, l: Seq<Seq<char>>)
    requires
        l.len() > 0,
        forall|t: int| 0 <= t < l.len() ==> quotes_back(#[trigger] l[t]),
        0 <= i,
        i + items_text(l).len() <= s.len(),
        s.subrange(i, i + items_text(l).len()) == items_text(l),
    ensures
        parse_items(s, i) == Some((l, i + items_text(l).len())),
    decreases l.len(),
{
    let q = json_quoted(l[0]);
    let n = items_text(l).len();
    assert(quotes_back(l[0]));
    assert(s.subrange(i, i + q.len()) =~= q) by {
        assert(s.subrange(i, i + q.len()) =~= s.subrange(i, i + n).subrange(0, q.len() as int));
    }
    lemma_parse_quoted(s, i, l[0]);
    let j = i + q.len();
    assert(s[j] == s.subrange(i, i + n)[q.len() as int]);
    assert(q.len() >= 2);
    if l.len() == 1 {
        assert(seq![l[0]] =~= l);
    } else {
        let rest = l.skip(1);
        assert forall|t: int| 0 <= t < rest.len() implies quotes_back(#[trigger] rest[t]) by {
            assert(rest[t] == l[t + 1]);
        }
        assert(s.subrange(j + 1, j + 1 + items_text(rest).len()) =~= items_text(rest)) by {
            assert(s.subrange(j + 1, j + 1 + items_text(rest).len()) =~= s.subrange(i, i + n).subrange(
                q.len() + 1 as int,
                n as int,
            ));
        }
        lemma_parse_items_text(s, j + 1, rest);
        assert(seq![l[0]] + rest =~= l);
    }
}


proof fn lemma_parse_list_value(s: Seq<char>, i: int, a: Option<Seq<Seq<char>>>)
    requires
        a matches Some(l) ==> forall|t: int| 0 <= t < l.len() ==> quotes_back(#[trigger] l[t]),
        0 <= i,
        i + list_text(a).len() <= s.len(),
        s.subrange(i, i + list_text(a).len()) == list_text(a),
    ensures
        parse_value(s, i) == Some(
            (
                match a {
                    Some(l) => FieldModel::List(l),
                    None => FieldModel::Null,
                },
                i + list_text(a).len(),
            ),
        ),
{
    let v = list_text(a);
    assert(s[i] == v[0]);
    match a {
        None => {
            assert(s[i + 1] == v[1]);
            assert(s[i + 2] == v[2]);
            assert(s[i + 3] == v[3]);
        },
        Some(l) => {
            if l.len() == 0 {
                assert(s[i + 1] == v[1]);
                assert(l =~= Seq::<Seq<char>>::empty());
            } else {
                let n = items_text(l).len();
                assert(quotes_back(l[0]));
                assert(s[i + 1] == v[1]);
                assert(v[1] == json_quoted(l[0])[0]) by {
                    if l.len() == 1 {
                        assert(items_text(l) == json_quoted(l[0]) + seq![']']);
                    } else {
                        assert(items_text(l) == json_quoted(l[0]) + seq![','] + items_text(l.skip(1)));
                    }
                }
                assert(s.subrange(i + 1, i + 1 + n) =~= items_text(l)) by {
                    assert(s.subrange(i + 1, i + 1 + n) =~= s.subrange(i, i + v.len()).subrange(1, v.len() as int));
                }
                lemma_parse_items_text(s, i + 1, l);
            }
        },
    }
}

proof fn lemma_parse_text_value(s: Seq<char>, i: int, d: Option<Seq<char>>)
    requires
        d matches Some(t) ==> quotes_back(t),
        0 <= i,
        i + opt_text(d).len() <= s.len(),
        s.subrange(i, i + opt_text(d).len()) == opt_text(d),
    ensures
        parse_value(s, i) == Some(
            (
                match d {
                    Some(t) => FieldModel::Text(t),
                    None => FieldModel::Null,
                },
                i + opt_text(d).len(),
            ),
        ),
{
    let v = opt_text(d);
    assert(s[i] == v[0]);
    match d {
        None => {
            assert(s[i + 1] == v[1]);
            assert(s[i + 2] == v[2]);
            assert(s[i + 3] == v[3]);
        },
        Some(t) => {
            lemma_parse_quoted(s, i, t);
        },
    }
}

proof fn lemma_envelope_of_members(m: EnvelopeModel, f2: FieldModel, f3: FieldModel)
    requires
        m.wf(),
        f2 == (match m.data_array {
            Some(l) => FieldModel::List(l),
            None => FieldModel::Null,
        }),
        f3 == (match m.data {
            Some(t) => FieldModel::Text(t),
            None => FieldModel::Null,
        }),
    ensures
        envelope_of(
            seq![("messageType"@, FieldModel::Text(tag_name(m.message_type)))] + (seq![
                ("dataArray"@, f2),
            ] + seq![("data"@, f3)]),
        ) == Some(m),
{
    let ms = seq![("messageType"@, FieldModel::Text(tag_name(m.message_type)))] + (seq![
        ("dataArray"@, f2),
    ] + seq![("data"@, f3)]);
    reveal_strlit("messageType");
    reveal_strlit("dataArray");
    reveal_strlit("data");
    reveal_strlit("users");
    reveal_strlit("register");
    reveal_strlit("message");
    assert("messageType"@.len() == 11 && "dataArray"@.len() == 9 && "data"@.len() == 4);
    assert("users"@.len() == 5 && "register"@.len() == 8 && "message"@.len() == 7);
    assert(ms.skip(1).skip(1) =~= seq![("data"@, f3)]);
    assert(ms.skip(1) =~= seq![("dataArray"@, f2), ("data"@, f3)]);
    assert(lookup(ms, "messageType"@) == Some(FieldModel::Text(tag_name(m.message_type))));
    assert(lookup(ms.skip(1), "dataArray"@) == Some(f2));
    assert(lookup(ms, "dataArray"@) == Some(f2));
    assert(lookup(ms.skip(1).skip(1), "data"@) == Some(f3));
    assert(lookup(ms.skip(1), "data"@) == Some(f3));
    assert(lookup(ms, "data"@) == Some(f3));
    assert(tag_of(tag_name(m.message_type)) == Some(m.message_type));
}

proof fn lemma_three_members(
    s: Seq<char>,
    o1: int,
    k1: Seq<char>,
    f1: FieldModel,
    k2: Seq<char>,
    f2: FieldModel,
    k3: Seq<char>,
    f3: FieldModel,
    o2: int,
    o4: int,
    o6: int,
    o8: int,
    o10: int,
    o12: int,
)
    requires
        0 <= o1 < o2 < o4 < o6 < o8 < o10 < o12,
        o12 + 1 == s.len(),
        parse_string(s, o1) == Some((k1, o2)),
        s[o2] == ':',
        parse_value(s, o2 + 1) == Some((f1, o4)),
        s[o4] == ',',
        parse_string(s, o4 + 1) == Some((k2, o6)),
        s[o6] == ':',
        parse_value(s, o6 + 1) == Some((f2, o8)),
        s[o8] == ',',
        parse_string(s, o8 + 1) == Some((k3, o10)),
        s[o10] == ':',
        parse_value(s, o10 + 1) == Some((f3, o12)),
        s[o12] == '}',
    ensures
        parse_members(s, o1) == Some(seq![(k1, f1)] + (seq![(k2, f2)] + seq![(k3, f3)])),
{
    assert(ws_end(s, o2) == o2);
    assert(ws_end(s, o4) == o4);
    assert(ws_end(s, o6) == o6);
    assert(ws_end(s, o8) == o8);
    assert(ws_end(s, o10) == o10);
    assert(ws_end(s, o12) == o12);
    assert(ws_end(s, o12 + 1) == s.len());
    assert(parse_members(s, o8 + 1) == Some(seq![(k3, f3)]));
    assert(parse_members(s, o4 + 1) == Some(seq![(k2, f2)] + seq![(k3, f3)]));
}

#[verifier::rlimit(60)]
proof fn lemma_decode_encoded(m: EnvelopeModel)
    requires
        m.wf(),
        quotes_back("messageType"@),
        quotes_back("dataArray"@),
        quotes_back("data"@),
        quotes_back(tag_name(m.message_type)),
        m.data_array matches Some(l) ==> forall|t: int| 0 <= t < l.len() ==> quotes_back(#[trigger] l[t]),
        m.data matches Some(t) ==> quotes_back(t),
    ensures
        decode_model(encode_model(m)) == Some(m),
{
    let s = encode_model(m);
    let k1 = json_quoted("messageType"@);
    let v1 = json_quoted(tag_name(m.message_type));
    let k2 = json_quoted("dataArray"@);
    let v2 = list_text(m.data_array);
    let k3 = json_quoted("data"@);
    let v3 = opt_text(m.data);
    let o1: int = 1;
    let o2 = o1 + k1.len();
    let o3 = o2 + 1;
    let o4 = o3 + v1.len();
    let o5 = o4 + 1;
    let o6 = o5 + k2.len();
    let o7 = o6 + 1;
    let o8 = o7 + v2.len();
    let o9 = o8 + 1;
    let o10 = o9 + k3.len();
    let o11 = o10 + 1;
    let o12 = o11 + v3.len();
    assert(s.len() == o12 + 1);
    assert(s.subrange(o1, o2) =~= k1);
    assert(s.subrange(o3, o4) =~= v1);
    assert(s.subrange(o5, o6) =~= k2);
    assert(s.subrange(o7, o8) =~= v2);
    assert(s.subrange(o9, o10) =~= k3);
    assert(s.subrange(o11, o12) =~= v3);
    assert(s[0] == '{' && s[o2] == ':' && s[o4] == ',' && s[o6] == ':');
    assert(s[o8] == ',' && s[o10] == ':' && s[o12] == '}');
    lemma_parse_quoted(s, o1, "messageType"@);
    assert(opt_text(Some(tag_name(m.message_type))) == v1);
    lemma_parse_text_value(s, o3, Some(tag_name(m.message_type)));
    lemma_parse_quoted(s, o5, "dataArray"@);
    lemma_parse_list_value(s, o7, m.data_array);
    lemma_parse_quoted(s, o9, "data"@);
    lemma_parse_text_value(s, o11, m.data);
    let f2 = match m.data_array {
        Some(l) => FieldModel::List(l),
        None => FieldModel::Null,
    };
    let f3 = match m.data {
        Some(t) => FieldModel::Text(t),
        None => FieldModel::Null,
    };
    let ms = seq![("messageType"@, FieldModel::Text(tag_name(m.message_type)))] + (seq![
        ("dataArray"@, f2),
    ] + seq![("data"@, f3)]);
    lemma_three_members(
        s,
        o1,
        "messageType"@,
        FieldModel::Text(tag_name(m.message_type)),
        "dataArray"@,
        f2,
        "data"@,
        f3,
        o2,
        o4,
        o6,
        o8,
        o10,
        o12,
    );
    assert(ws_end(s, 0) == 0);
    assert(s[1] == k1[0]);
    assert(ws_end(s, 1) == 1);
    assert(parse_object(s) == Some(ms));
    lemma_envelope_of_members(m, f2, f3);
}


fn tag_text(k: MsgTypes) -> (r: &'static str)
    ensures
        r@ == tag_name(k),
{
    match k {
        MsgTypes::Users => "users",
        MsgTypes::Register => "register",
        MsgTypes::Message => "message",
    }
}

fn push_char(out: &mut String, c: char)
    requires
        c == '{' || c == '}' || c == '[' || c == ']' || c == ':' || c == ',',
    ensures
        final(out)@ == old(out)@ + seq![c],
{
    let piece = match c {
        '{' => "{",
        '}' => "}",
        '[' => "[",
        ']' => "]",
        ':' => ":",
        _ => ",",
    };
    proof {
        reveal_strlit("{");
        reveal_strlit("}");
        reveal_strlit("[");
        reveal_strlit("]");
        reveal_strlit(":");
        reveal_strlit(",");
    }
    assert(piece@ =~= seq![c]);
    out.append(piece);
}

fn list_to_text(a: &Option<Vec<String>>) -> (r: String)
    ensures
        r@ == list_text(
            match a {
                Some(v) => Some(strings_view(v@)),
                None => None,
            },
        ),
        a matches Some(v) ==> forall|t: int|
            0 <= t < v@.len() ==> quotes_back(#[trigger] v@[t]@),
{
    proof {
        reveal_strlit("null");
    }
    match a {
        None => {
            let r = String::from_str("null");
            assert(r@ =~= null_text());
            r
        },
        Some(v) => {
            let ghost lv = strings_view(v@);
            let mut out = String::new();
            push_char(&mut out, '[');
            assert(out@ =~= seq!['[']);
            let n = v.len();
            if n == 0 {
                push_char(&mut out, ']');
                assert(lv =~= Seq::<Seq<char>>::empty());
                return out;
            }
            let ghost target = seq!['['] + items_text(lv);
            let mut k: usize = 0;
            assert(lv.skip(0) =~= lv);
            while k < n
                invariant
                    n == v@.len(),
                    n > 0,
                    k <= n,
                    lv == strings_view(v@),
                    target == seq!['['] + items_text(lv),
                    k < n ==> out@ + items_text(lv.skip(k as int)) == target,
                    k == n ==> out@ == target,
                    forall|t: int| 0 <= t < k ==> quotes_back(#[trigger] lv[t]),
                decreases n - k,
            {
                let q = quote(v[k].as_str());
                let ghost before = out@;
                let ghost tail = lv.skip(k as int);
                assert(tail[0] == lv[k as int]);
                out.append(q.as_str());
                if k + 1 == n {
                    push_char(&mut out, ']');
                    assert(tail.len() == 1);
                    assert(out@ =~= before + items_text(tail));
                } else {
                    push_char(&mut out, ',');
                    assert(tail.skip(1) =~= lv.skip(k + 1));
                    assert(items_text(tail) == json_quoted(tail[0]) + seq![','] + items_text(tail.skip(1)));
                    assert(out@ + items_text(lv.skip(k + 1)) =~= before + items_text(tail));
                }
                k = k + 1;
            }
            assert forall|t: int| 0 <= t < v@.len() implies quotes_back(#[trigger] v@[t]@) by {
                assert(lv[t] == v@[t]@);
            }
            out
        },
    }
}

fn opt_to_text(d: &Option<String>) -> (r: String)
    ensures
        r@ == opt_text(
            match d {
                Some(t) => Some(t@),
                None => None,
            },
        ),
        d matches Some(t) ==> quotes_back(t@),
{
    match d {
        None => {
            proof {
                reveal_strlit("null");
            }
            let r = String::from_str("null");
            assert(r@ =~= null_text());
            r
        },
        Some(t) => quote(t.as_str()),
    }
}

/// Encodes an envelope as wire text; a well-formed envelope decodes back to itself.
pub fn encode(e: &Envelope) -> (r: String)
    ensures
        r@ == encode_model(e@),
        e@.wf() ==> decode_model(r@) == Some(e@),
{
    let k1 = quote("messageType");
    let v1 = quote(tag_text(e.message_type));
    let k2 = quote("dataArray");
    let v2 = list_to_text(&e.data_array);
    let k3 = quote("data");
    let v3 = opt_to_text(&e.data);
    let mut out = String::new();
    push_char(&mut out, '{');
    out.append(k1.as_str());
    push_char(&mut out, ':');
    out.append(v1.as_str());
    push_char(&mut out, ',');
    out.append(k2.as_str());
    push_char(&mut out, ':');
    out.append(v2.as_str());
    push_char(&mut out, ',');
    out.append(k3.as_str());
    push_char(&mut out, ':');
    out.append(v3.as_str());
    push_char(&mut out, '}');
    assert(out@ =~= encode_model(e@));
    proof {
        if e@.wf() {
            lemma_decode_encoded(e@);
        }
    }
    out
}

} // verus!
