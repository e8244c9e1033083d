//! A JSON document as plain values, the parse of response text into it, and
//! the quoting of text as a JSON string.

use vstd::prelude::*;
use crate::text::str_eq;

verus! {

/// The mathematical model of a JSON document. Numbers are kept as the text
/// that serde_json prints for them; nothing in this library reads them.
pub enum JsonV {
    Null,
    Bool(bool),
    Number(Seq<char>),
    Str(Seq<char>),
    Array(Seq<JsonV>),
    Object(Seq<(Seq<char>, JsonV)>),
}

/// A JSON document. The members of an object keep the order in which the
/// parser hands them out.
pub enum Json {
    Null,
    Bool(bool),
    Number(String),
    Str(String),
    Array(Vec<Json>),
    Object(Vec<(String, Json)>),
}

/// The model of a JSON document.
pub open spec fn json_view(j: Json) -> JsonV
    decreases j,
{
    match j {
        Json::Null => JsonV::Null,
        Json::Bool(b) => JsonV::Bool(b),
        Json::Number(n) => JsonV::Number(n@),
        Json::Str(s) => JsonV::Str(s@),
        Json::Array(items) => JsonV::Array(json_seq_view(items@)),
        Json::Object(fields) => JsonV::Object(json_fields_view(fields@)),
    }
}

/// The models of a sequence of JSON documents.
pub open spec fn json_seq_view(s: Seq<Json>) -> Seq<JsonV>
    decreases s,
{
    if s.len() == 0 {
        Seq::empty()
    } else {
        json_seq_view(s.drop_last()).push(json_view(s.last()))
    }
}

/// The models of the members of a JSON object.
pub open spec fn json_fields_view(s: Seq<(String, Json)>) -> Seq<(Seq<char>, JsonV)>
    decreases s,
{
    if s.len() == 0 {
        Seq::empty()
    } else {
        json_fields_view(s.drop_last()).push((s.last().0@, json_view(s.last().1)))
    }
}

impl View for Json {
    type V = JsonV;

    open spec fn view(&self) -> JsonV {
        json_view(*self)
    }
}


/// The model of a sequence of documents is taken element by element.
pub proof fn lemma_json_seq_view(s: Seq<Json>)
    ensures
        json_seq_view(s).len() == s.len(),
        forall|i: int| 0 <= i < s.len() ==> #[trigger] json_seq_view(s)[i] == s[i]@,
    decreases s.len(),
{
    if s.len() > 0 {
        lemma_json_seq_view(s.drop_last());
        assert forall|i: int| 0 <= i < s.len() implies #[trigger] json_seq_view(s)[i] == s[i]@ by {
            if i < s.len() - 1 {
                assert(s.drop_last()[i] == s[i]);
            }
        }
    }
}

/// The model of the members of an object is taken member by member.
pub proof fn lemma_json_fields_view(s: Seq<(String, Json)>)
    ensures
        json_fields_view(s).len() == s.len(),
        forall|i: int|
            0 <= i < s.len() ==> #[trigger] json_fields_view(s)[i] == (s[i].0@, s[i].1@),
    decreases s.len(),
{
    if s.len() > 0 {
        lemma_json_fields_view(s.drop_last());
        assert forall|i: int| 0 <= i < s.len() implies #[trigger] json_fields_view(s)[i] == (
        s[i].0@, s[i].1@) by {
            if i < s.len() - 1 {
                assert(s.drop_last()[i] == s[i]);
            }
        }
    }
}

/// The model of an optional document.
pub open spec fn opt_json_view(j: Option<Json>) -> Option<JsonV> {
    match j {
        Some(v) => Some(v@),
        None => None,
    }
}

/// The value of the first member of an object named `key`.
pub open spec fn find_member(fields: Seq<(Seq<char>, JsonV)>, key: Seq<char>) -> Option<JsonV>
    decreases fields.len(),
{
    if fields.len() == 0 {
        None
    } else if fields[0].0 == key {
        Some(fields[0].1)
    } else {
        find_member(fields.drop_first(), key)
    }
}

/// What indexing a document by `key` gives: the member's value where the
/// document is an object that has such a member, and nothing otherwise.
pub open spec fn member(j: JsonV, key: Seq<char>) -> Option<JsonV> {
    match j {
        JsonV::Object(fields) => find_member(fields, key),
        _ => None,
    }
}

/// Adding a member named otherwise than `key` does not change what `key`
/// finds.
pub proof fn lemma_find_member_push(
    fields: Seq<(Seq<char>, JsonV)>,
    k: Seq<char>,
    v: JsonV,
    key: Seq<char>,
)
    requires
        k != key,
    ensures
        find_member(fields.push((k, v)), key) == find_member(fields, key),
    decreases fields.len(),
{
    let f2 = fields.push((k, v));
    if fields.len() == 0 {
        assert(f2.drop_first() =~= Seq::<(Seq<char>, JsonV)>::empty());
        assert(f2[0].0 == k);
        assert(find_member(f2.drop_first(), key) is None);
        assert(find_member(fields, key) is None);
    } else {
        assert(f2[0] == fields[0]);
        if fields[0].0 != key {
            assert(f2.drop_first() =~= fields.drop_first().push((k, v)));
            lemma_find_member_push(fields.drop_first(), k, v, key);
        }
    }
}

/// Adding a member named otherwise than `key` to an object does not change
/// its member `key`.
pub proof fn lemma_member_push(fields: Seq<(Seq<char>, JsonV)>, k: Seq<char>, v: JsonV, key: Seq<char>)
    requires
        k != key,
    ensures
        member(JsonV::Object(fields.push((k, v))), key) == member(JsonV::Object(fields), key),
{
    lemma_find_member_push(fields, k, v, key);
}

proof fn lemma_find_member_skip(fields: Seq<(Seq<char>, JsonV)>, key: Seq<char>, i: int)
    requires
        0 <= i <= fields.len(),
        forall|j: int| 0 <= j < i ==> fields[j].0 != key,
    ensures
        find_member(fields, key) == find_member(fields.skip(i), key),
    decreases i,
{
    if i > 0 {
        assert(fields[0].0 != key);
        lemma_find_member_skip(fields.drop_first(), key, i - 1);
        assert(fields.drop_first().skip(i - 1) =~= fields.skip(i));
    } else {
        assert(fields.skip(0) =~= fields);
    }
}

/// The member named `key` is the value of the first member of that name,
/// and there is none where no member has that name.
pub proof fn lemma_find_member_first(fields: Seq<(Seq<char>, JsonV)>, key: Seq<char>, i: int)
    ensures
        0 <= i < fields.len() && fields[i].0 == key && (forall|j: int|
            0 <= j < i ==> fields[j].0 != key) ==> find_member(fields, key) == Some(fields[i].1),
        (forall|j: int| 0 <= j < fields.len() ==> fields[j].0 != key) ==> find_member(fields, key) is None,
{
    if 0 <= i < fields.len() && fields[i].0 == key && (forall|j: int| 0 <= j < i ==> fields[j].0 != key) {
        lemma_find_member_skip(fields, key, i);
        assert(fields.skip(i)[0] == fields[i]);
    }
    if forall|j: int| 0 <= j < fields.len() ==> fields[j].0 != key {
        lemma_find_member_skip(fields, key, fields.len() as int);
        assert(fields.skip(fields.len() as int) =~= Seq::<(Seq<char>, JsonV)>::empty());
    }
}

impl Json {
    /// The value of the member named `key`, where this is an object that
    /// has one.
    pub fn member(&self, key: &str) -> (res: Option<&Json>)
        ensures
            match res {
                Some(v) => member(self@, key@) == Some(v@),
                None => member(self@, key@) is None,
            },
    {
        match self {
            Json::Object(fields) => {
                proof {
                    lemma_json_fields_view(fields@);
                }
                let ghost fv = json_fields_view(fields@);
                assert(self@ == JsonV::Object(fv));
                let mut i: usize = 0;
                while i < fields.len()
                    invariant
                        fv == json_fields_view(fields@),
                        self@ == JsonV::Object(fv),
                        fv.len() == fields@.len(),
                        forall|k: int| 0 <= k < fields@.len() ==> #[trigger] fv[k] == (fields@[k].0@, fields@[k].1@),
                        i <= fields.len(),
                        forall|j: int| 0 <= j < i ==> fv[j].0 != key@,
                    decreases fields.len() - i,
                {
                    if str_eq(fields[i].0.as_str(), key) {
                        proof {
                            lemma_find_member_skip(fv, key@, i as int);
                            assert(fv.skip(i as int)[0] == fv[i as int]);
                            assert(fv[i as int].0 == key@);
                            assert(find_member(fv.skip(i as int), key@) == Some(fv[i as int].1));
                        }
                        return Some(&fields[i].1);
                    }
                    i = i + 1;
                }
                proof {
                    lemma_find_member_skip(fv, key@, i as int);
                }
                None
            },
            _ => None,
        }
    }
}


#[verifier::external_type_specification]
#[verifier::external_body]
pub struct ExJsonValue(serde_json::Value);

/// The document that `serde_json::from_str::<serde_json::Value>` reads from
/// `text`, or nothing where it reports an error. Its rules (the JSON grammar,
/// the nesting limit, the range of numbers, which of two members with one
/// name is kept) are serde_json's and are not restated here; it depends on
/// the text alone.
pub uninterp spec fn json_of_text(text: Seq<char>) -> Option<JsonV>;

/// Parses `text` with `serde_json::from_str::<serde_json::Value>`: the
/// result is the document that the parser returns, converted member by
/// member, or `None` where the parser reports an error.
#[verifier::external_body]
pub(crate) fn parse_json(text: &str) -> (res: Option<Json>)
    ensures
        opt_json_view(res) == json_of_text(text@),
{
    match serde_json::from_str::<serde_json::Value>(text) {
        Ok(v) => Some(json_from_value(v)),
        Err(_) => None,
    }
}

/// Moves a `serde_json::Value` into a `Json`, variant by variant (a number
/// becomes the text that serde_json prints for it). Called by `parse_json`
/// alone.
#[verifier::external_body]
fn json_from_value(v: serde_json::Value) -> Json {
    match v {
        serde_json::Value::Null => Json::Null,
        serde_json::Value::Bool(b) => Json::Bool(b),
        serde_json::Value::Number(n) => Json::Number(n.to_string()),
        serde_json::Value::String(s) => Json::Str(s),
        serde_json::Value::Array(a) => Json::Array(a.into_iter().map(json_from_value).collect()),
        serde_json::Value::Object(m) => Json::Object(
            m.into_iter().map(|(k, x)| (k, json_from_value(x))).collect(),
        ),
    }
}

/// A hexadecimal digit in lower case.
pub open spec fn hex_digit(d: nat) -> char {
    if d < 10 {
        (48 + d) as char
    } else {
        (87 + d) as char
    }
}

/// How serde_json writes the character `c` inside a JSON string: `"` and
/// `\` behind a backslash, the five controls with a short escape as that
/// escape, the other characters below U+0020 as `\u00` and two lower-case
/// hexadecimal digits, and every other character as it is.
pub open spec fn json_escape_char(c: char) -> Seq<char> {
    let u = c as u32;
    if u == 0x22 {
        seq!['\\', '"']
    } else if u == 0x5c {
        seq!['\\', '\\']
    } else if u == 0x08 {
        seq!['\\', 'b']
    } else if u == 0x09 {
        seq!['\\', 't']
    } else if u == 0x0a {
        seq!['\\', 'n']
    } else if u == 0x0c {
        seq!['\\', 'f']
    } else if u == 0x0d {
        seq!['\\', 'r']
    } else if u < 0x20 {
        seq!['\\', 'u', '0', '0', hex_digit((u / 16) as nat), hex_digit((u % 16) as nat)]
    } else {
        seq![c]
    }
}

/// The characters of `s`, each written as inside a JSON string.
pub open spec fn json_escaped(s: Seq<char>) -> Seq<char>
    decreases s.len(),
{
    if s.len() == 0 {
        Seq::empty()
    } else {
        json_escaped(s.drop_last()) + json_escape_char(s.last())
    }
}

/// `s` written as a JSON string literal.
pub open spec fn json_quoted(s: Seq<char>) -> Seq<char> {
    seq!['"'] + json_escaped(s) + seq!['"']
}

/// Text without quotes, backslashes or characters below U+0020 is written
/// between quotes as it is.
pub proof fn lemma_plain_text_quoted(s: Seq<char>)
    requires
        forall|i: int|
            0 <= i < s.len() ==> (#[trigger] s[i] as u32) != 0x22 && (s[i] as u32) != 0x5c && (s[i] as u32) >= 0x20,
    ensures
        json_quoted(s) == seq!['"'] + s + seq!['"'],
    decreases s.len(),
{
    lemma_plain_text_escaped(s);
}

proof fn lemma_plain_text_escaped(s: Seq<char>)
    requires
        forall|i: int|
            0 <= i < s.len() ==> (#[trigger] s[i] as u32) != 0x22 && (s[i] as u32) != 0x5c && (s[i] as u32) >= 0x20,
    ensures
        json_escaped(s) == s,
    decreases s.len(),
{
    if s.len() > 0 {
        let c = s.last();
        assert(s[s.len() - 1] == c);
        assert forall|i: int| 0 <= i < s.drop_last().len() implies (#[trigger] s.drop_last()[i] as u32) != 0x22
            && (s.drop_last()[i] as u32) != 0x5c && (s.drop_last()[i] as u32) >= 0x20 by {
            assert(s.drop_last()[i] == s[i]);
        }
        lemma_plain_text_escaped(s.drop_last());
        assert((c as u32) != 0x22 && (c as u32) != 0x5c);
        assert(json_escape_char(c) == seq![c]);
        assert(s.drop_last() + seq![c] =~= s);
    }
}

/// Writes `s` as a JSON string literal with `serde_json::to_string`. The
/// contract restates the escaping of serde_json's `format_escaped_str`; the
/// serialisation of a `str` never reports an error there.
#[verifier::external_body]
pub(crate) fn json_quote(s: &str) -> (res: String)
    ensures
        res@ == json_quoted(s@),
{
    match serde_json::to_string(s) {
        Ok(q) => q,
        Err(_) => String::new(),
    }
}

} // verus!
