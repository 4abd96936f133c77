use vstd::prelude::*;
use vstd::utf8::{valid_utf8, decode_utf8, encode_utf8, encode_utf8_decode_utf8, encode_utf8_valid_utf8};
use base64::Engine as _;
use serde_json::Value;
use crate::json::{Json, JsonV, jv, items_view, entries_view, opt_view, lemma_items_view, lemma_entries_view};

verus! {

/// Deepest nesting of arrays and objects that decoding follows.
pub const DEPTH: usize = 256;

/// One level of a JSON document; members are held as their own JSON text.
pub enum Layer {
    Null,
    Bool(bool),
    Num(String),
    Str(String),
    Arr(Vec<String>),
    Obj(Vec<(String, String)>),
}

pub enum LayerV {
    Null,
    Bool(bool),
    Num(Seq<char>),
    Str(Seq<char>),
    Arr(Seq<Seq<char>>),
    Obj(Seq<(Seq<char>, Seq<char>)>),
}

impl View for Layer {
    type V = LayerV;

    open spec fn view(&self) -> LayerV {
        match self {
            Layer::Null => LayerV::Null,
            Layer::Bool(b) => LayerV::Bool(*b),
            Layer::Num(s) => LayerV::Num(s@),
            Layer::Str(s) => LayerV::Str(s@),
            Layer::Arr(a) => LayerV::Arr(a@.map_values(|t: String| t@)),
            Layer::Obj(m) => LayerV::Obj(m@.map_values(|e: (String, String)| (e.0@, e.1@))),
        }
    }
}

/// What serde_json reads from a text, one level deep.
pub uninterp spec fn layer_of(s: Seq<char>) -> Option<LayerV>;

/// What serde_json writes for one level whose members are given as JSON text.
pub uninterp spec fn layer_text(l: LayerV) -> Option<Seq<char>>;

/// What the standard base64 alphabet (with padding) decodes a text to.
pub uninterp spec fn b64_decoded(s: Seq<char>) -> Option<Seq<u8>>;

/// What the standard base64 alphabet (with padding) encodes bytes to.
pub uninterp spec fn b64_encoded(b: Seq<u8>) -> Seq<char>;

/// Relies on serde_json::from_str into serde_json::Value, and on Value's
/// Display for the members: one level of the document, members as JSON text.
#[verifier::external_body]
fn peel(s: &str) -> (r: Option<Layer>)
    ensures
        match r {
            Some(l) => layer_of(s@) == Some(l@),
            None => layer_of(s@) is None,
        },
{
    let v: Value = serde_json::from_str(s).ok()?;
    Some(match v {
        Value::Null => Layer::Null,
        Value::Bool(b) => Layer::Bool(b),
        Value::Number(n) => Layer::Num(n.to_string()),
        Value::String(t) => Layer::Str(t),
        Value::Array(a) => Layer::Arr(a.iter().map(|c| c.to_string()).collect()),
        Value::Object(m) => Layer::Obj(m.into_iter().map(|(k, c)| (k, c.to_string())).collect()),
    })
}

/// Relies on serde_json::from_str for the members and serde_json::to_string
/// for the whole: the JSON text of one level built from its members' text.
#[verifier::external_body]
fn compose(l: Layer) -> (r: Option<String>)
    ensures
        match r {
            Some(t) => layer_text(l@) == Some(t@),
            None => layer_text(l@) is None,
        },
{
    let v = match l {
        Layer::Null => Value::Null,
        Layer::Bool(b) => Value::Bool(b),
        Layer::Num(t) => serde_json::from_str(&t).ok()?,
        Layer::Str(t) => Value::String(t),
        Layer::Arr(a) => Value::Array(a.iter().map(|t| serde_json::from_str(t)).collect::<Result<_, _>>().ok()?),
        Layer::Obj(m) => Value::Object(m.into_iter().map(|(k, t)| serde_json::from_str(&t).map(|c| (k, c))).collect::<Result<_, _>>().ok()?),
    };
    serde_json::to_string(&v).ok()
}

/// Relies on base64's STANDARD engine `decode`.
#[verifier::external_body]
fn b64_decode(s: &str) -> (r: Option<Vec<u8>>)
    ensures
        match r {
            Some(b) => b64_decoded(s@) == Some(b@),
            None => b64_decoded(s@) is None,
        },
{
    base64::engine::general_purpose::STANDARD.decode(s).ok()
}

/// Relies on base64's STANDARD engine `encode`, which its `decode` inverts.
#[verifier::external_body]
fn b64_encode(b: &[u8]) -> (r: String)
    ensures
        r@ == b64_encoded(b@),
        b64_decoded(r@) == Some(b@),
{
    base64::engine::general_purpose::STANDARD.encode(b)
}

/// Relies on std::str::from_utf8: the text of valid UTF-8 bytes, nothing otherwise.
#[verifier::external_body]
pub(crate) fn utf8_text(b: &[u8]) -> (r: Option<String>)
    ensures
        r is Some <==> valid_utf8(b@),
        r is Some ==> r->0@ == decode_utf8(b@),
{
    std::str::from_utf8(b).ok().map(|s| s.to_owned())
}

/// The document a JSON text holds, following at most `fuel` levels of nesting.
pub open spec fn json_of(s: Seq<char>, fuel: nat) -> Option<JsonV>
    decreases fuel, 0nat,
{
    match layer_of(s) {
        None => None,
        Some(LayerV::Null) => Some(JsonV::Null),
        Some(LayerV::Bool(b)) => Some(JsonV::Bool(b)),
        Some(LayerV::Num(t)) => Some(JsonV::Num(t)),
        Some(LayerV::Str(t)) => Some(JsonV::Str(t)),
        Some(LayerV::Arr(ts)) => if fuel == 0 {
            None
        } else {
            match items_of(ts, (fuel - 1) as nat) {
                Some(xs) => Some(JsonV::Arr(xs)),
                None => None,
            }
        },
        Some(LayerV::Obj(es)) => if fuel == 0 {
            None
        } else {
            match members_of(es, (fuel - 1) as nat) {
                Some(xs) => Some(JsonV::Obj(xs)),
                None => None,
            }
        },
    }
}

pub open spec fn items_of(ts: Seq<Seq<char>>, fuel: nat) -> Option<Seq<JsonV>>
    decreases fuel, ts.len(),
{
    if ts.len() == 0 {
        Some(Seq::empty())
    } else {
        match (items_of(ts.drop_last(), fuel), json_of(ts.last(), fuel)) {
            (Some(xs), Some(x)) => Some(xs.push(x)),
            _ => None,
        }
    }
}

pub open spec fn members_of(es: Seq<(Seq<char>, Seq<char>)>, fuel: nat) -> Option<Seq<(Seq<char>, JsonV)>>
    decreases fuel, es.len(),
{
    if es.len() == 0 {
        Some(Seq::empty())
    } else {
        match (members_of(es.drop_last(), fuel), json_of(es.last().1, fuel)) {
            (Some(xs), Some(x)) => Some(xs.push((es.last().0, x))),
            _ => None,
        }
    }
}

/// The document a JSON text holds.
pub open spec fn json_doc(s: Seq<char>) -> Option<JsonV> {
    json_of(s, DEPTH as nat)
}

/// The document that base64 text holds as UTF-8 JSON.
pub open spec fn b64_json_doc(s: Seq<char>) -> Option<JsonV> {
    match b64_decoded(s) {
        Some(b) => if valid_utf8(b) { json_doc(decode_utf8(b)) } else { None },
        None => None,
    }
}

fn decode_fuel(s: &str, fuel: usize) -> (r: Option<Json>)
    ensures
        opt_view(r) == json_of(s@, fuel as nat),
    decreases fuel,
{
    match peel(s) {
        None => None,
        Some(Layer::Null) => Some(Json::Null),
        Some(Layer::Bool(b)) => Some(Json::Bool(b)),
        Some(Layer::Num(t)) => Some(Json::Num(t)),
        Some(Layer::Str(t)) => Some(Json::Str(t)),
        Some(Layer::Arr(ts)) => {
            if fuel == 0 {
                return None;
            }
            let ghost tv = ts@.map_values(|t: String| t@);
            let mut out: Vec<Json> = Vec::new();
            let mut i: usize = 0;
            while i < ts.len()
                invariant
                    fuel > 0,
                    layer_of(s@) == Some(LayerV::Arr(tv)),
                    tv == ts@.map_values(|t: String| t@),
                    i <= ts@.len(),
                    items_of(tv.subrange(0, i as int), (fuel - 1) as nat) == Some(items_view(out@)),
                decreases ts@.len() - i,
            {
                let c = decode_fuel(ts[i].as_str(), fuel - 1);
                assert(tv.subrange(0, i + 1).drop_last() =~= tv.subrange(0, i as int));
                match c {
                    Some(x) => {
                        let ghost before = out@;
                        out.push(x);
                        assert(out@.drop_last() =~= before);
                    },
                    None => {
                        proof {
                            lemma_items_fail(tv, i as int, (fuel - 1) as nat);
                        }
                        return None;
                    },
                }
                i = i + 1;
            }
            assert(tv.subrange(0, i as int) =~= tv);
            Some(Json::Arr(out))
        },
        Some(Layer::Obj(es)) => {
            if fuel == 0 {
                return None;
            }
            let ghost ev = es@.map_values(|e: (String, String)| (e.0@, e.1@));
            let mut out: Vec<(String, Json)> = Vec::new();
            let mut i: usize = 0;
            while i < es.len()
                invariant
                    fuel > 0,
                    layer_of(s@) == Some(LayerV::Obj(ev)),
                    ev == es@.map_values(|e: (String, String)| (e.0@, e.1@)),
                    i <= es@.len(),
                    members_of(ev.subrange(0, i as int), (fuel - 1) as nat) == Some(entries_view(out@)),
                decreases es@.len() - i,
            {
                let c = decode_fuel(es[i].1.as_str(), fuel - 1);
                assert(ev.subrange(0, i + 1).drop_last() =~= ev.subrange(0, i as int));
                match c {
                    Some(x) => {
                        let ghost before = out@;
                        let k = es[i].0.clone();
                        out.push((k, x));
                        assert(out@.drop_last() =~= before);
                    },
                    None => {
                        proof {
                            lemma_members_fail(ev, i as int, (fuel - 1) as nat);
                        }
                        return None;
                    },
                }
                i = i + 1;
            }
            assert(ev.subrange(0, i as int) =~= ev);
            Some(Json::Obj(out))
        },
    }
}

proof fn lemma_items_fail(ts: Seq<Seq<char>>, i: int, f: nat)
    requires
        0 <= i < ts.len(),
        json_of(ts[i], f) is None,
    ensures
        items_of(ts, f) is None,
    decreases ts.len(),
{
    if i < ts.len() - 1 {
        lemma_items_fail(ts.drop_last(), i, f);
    }
}

proof fn lemma_members_fail(es: Seq<(Seq<char>, Seq<char>)>, i: int, f: nat)
    requires
        0 <= i < es.len(),
        json_of(es[i].1, f) is None,
    ensures
        members_of(es, f) is None,
    decreases es.len(),
{
    if i < es.len() - 1 {
        lemma_members_fail(es.drop_last(), i, f);
    }
}

/// Parses a JSON text; nothing when it is not well-formed.
pub fn decode_json(text: &str) -> (r: Option<Json>)
    ensures
        opt_view(r) == json_doc(text@),
{
    decode_fuel(text, DEPTH)
}

/// Decodes base64 text, then UTF-8, then JSON; nothing when any step fails.
pub fn decode_base64_json(text: &str) -> (r: Option<Json>)
    ensures
        opt_view(r) == b64_json_doc(text@),
{
    let bytes = b64_decode(text)?;
    let t = utf8_text(bytes.as_slice())?;
    decode_json(t.as_str())
}

/// The standard base64 text of a string's UTF-8 bytes. Decoding it back with
/// `decode_base64_json` gives what `decode_json` gives on the string itself.
pub fn base64_encode(text: &str) -> (r: String)
    ensures
        r@ == b64_encoded(encode_utf8(text@)),
        b64_json_doc(r@) == json_doc(text@),
{
    let r = b64_encode(text.as_bytes());
    proof {
        encode_utf8_valid_utf8(text@);
        encode_utf8_decode_utf8(text@);
    }
    r
}

pub open spec fn is_ws(b: u8) -> bool {
    b == 32u8 || b == 9u8 || b == 10u8 || b == 12u8 || b == 13u8
}

/// Whether the first byte that is not ASCII whitespace opens an object or an array.
pub open spec fn json_shaped(b: Seq<u8>) -> bool {
    exists|i: int|
        0 <= i < b.len() && (b[i] == 123u8 || b[i] == 91u8) && forall|j: int| 0 <= j < i ==> is_ws(#[trigger] b[j])
}

pub fn looks_like_json(bytes: &[u8]) -> (r: bool)
    ensures
        r == json_shaped(bytes@),
{
    let mut i: usize = 0;
    while i < bytes.len()
        invariant
            i <= bytes@.len(),
            forall|j: int| 0 <= j < i ==> is_ws(#[trigger] bytes@[j]),
        decreases bytes@.len() - i,
    {
        let c = bytes[i];
        if !(c == 32u8 || c == 9u8 || c == 10u8 || c == 12u8 || c == 13u8) {
            if c == 123u8 || c == 91u8 {
                return true;
            }
            proof {
                assert forall|k: int| 0 <= k < bytes@.len() && (bytes@[k] == 123u8 || bytes@[k] == 91u8)
                    implies !(forall|j: int| 0 <= j < k ==> is_ws(#[trigger] bytes@[j])) by {
                    if k > i {
                        assert(!is_ws(bytes@[i as int]));
                    }
                }
            }
            return false;
        }
        i = i + 1;
    }
    false
}

/// The JSON text serde_json writes for a document.
pub open spec fn text_of_json(j: JsonV) -> Option<Seq<char>>
    decreases j,
{
    match j {
        JsonV::Null => layer_text(LayerV::Null),
        JsonV::Bool(b) => layer_text(LayerV::Bool(b)),
        JsonV::Num(t) => layer_text(LayerV::Num(t)),
        JsonV::Str(t) => layer_text(LayerV::Str(t)),
        JsonV::Arr(xs) => match texts_of(xs) {
            Some(ts) => layer_text(LayerV::Arr(ts)),
            None => None,
        },
        JsonV::Obj(es) => match member_texts(es) {
            Some(ts) => layer_text(LayerV::Obj(ts)),
            None => None,
        },
    }
}

pub open spec fn texts_of(xs: Seq<JsonV>) -> Option<Seq<Seq<char>>>
    decreases xs,
{
    if xs.len() == 0 {
        Some(Seq::empty())
    } else {
        match (texts_of(xs.drop_last()), text_of_json(xs.last())) {
            (Some(ts), Some(t)) => Some(ts.push(t)),
            _ => None,
        }
    }
}

pub open spec fn member_texts(es: Seq<(Seq<char>, JsonV)>) -> Option<Seq<(Seq<char>, Seq<char>)>>
    decreases es,
{
    if es.len() == 0 {
        Some(Seq::empty())
    } else {
        match (member_texts(es.drop_last()), text_of_json(es.last().1)) {
            (Some(ts), Some(t)) => Some(ts.push((es.last().0, t))),
            _ => None,
        }
    }
}

/// The JSON text of a document, as serde_json writes it.
pub fn encode_json(j: &Json) -> (r: Option<String>)
    ensures
        match r {
            Some(t) => text_of_json(j@) == Some(t@),
            None => text_of_json(j@) is None,
        },
    decreases j,
{
    match j {
        Json::Null => compose(Layer::Null),
        Json::Bool(b) => compose(Layer::Bool(*b)),
        Json::Num(t) => compose(Layer::Num(t.clone())),
        Json::Str(t) => compose(Layer::Str(t.clone())),
        Json::Arr(a) => {
            let mut ts: Vec<String> = Vec::new();
            let mut i: usize = 0;
            while i < a.len()
                invariant
                    *j == Json::Arr(*a),
                    i <= a@.len(),
                    texts_of(items_view(a@.subrange(0, i as int))) == Some(ts@.map_values(|t: String| t@)),
                decreases a@.len() - i,
            {
                assert(decreases_to!(*j => *a));
                assert(decreases_to!(*a => a@[i as int]));
                let t = encode_json(&a[i]);
                let ghost pre = items_view(a@.subrange(0, i as int));
                assert(a@.subrange(0, i + 1).drop_last() =~= a@.subrange(0, i as int));
                assert(items_view(a@.subrange(0, i + 1)) == pre.push(jv(a@[i as int])));
                assert(pre.push(jv(a@[i as int])).drop_last() =~= pre);
                match t {
                    Some(t) => {
                        let ghost before = ts@.map_values(|t: String| t@);
                        ts.push(t);
                        assert(ts@.map_values(|t: String| t@) =~= before.push(t@));
                    },
                    None => {
                        proof {
                            lemma_items_view(a@);
                            lemma_texts_fail(items_view(a@), i as int);
                        }
                        return None;
                    },
                }
                i = i + 1;
            }
            assert(a@.subrange(0, i as int) =~= a@);
            compose(Layer::Arr(ts))
        },
        Json::Obj(m) => {
            let mut ts: Vec<(String, String)> = Vec::new();
            let mut i: usize = 0;
            while i < m.len()
                invariant
                    *j == Json::Obj(*m),
                    i <= m@.len(),
                    member_texts(entries_view(m@.subrange(0, i as int))) == Some(
                        ts@.map_values(|e: (String, String)| (e.0@, e.1@)),
                    ),
                decreases m@.len() - i,
            {
                assert(decreases_to!(*j => *m));
                assert(decreases_to!(*m => m@[i as int]));
                assert(decreases_to!(m@[i as int] => m@[i as int].1));
                let t = encode_json(&m[i].1);
                let ghost pre = entries_view(m@.subrange(0, i as int));
                assert(m@.subrange(0, i + 1).drop_last() =~= m@.subrange(0, i as int));
                assert(entries_view(m@.subrange(0, i + 1)) == pre.push((m@[i as int].0@, jv(m@[i as int].1))));
                assert(pre.push((m@[i as int].0@, jv(m@[i as int].1))).drop_last() =~= pre);
                match t {
                    Some(t) => {
                        let ghost before = ts@.map_values(|e: (String, String)| (e.0@, e.1@));
                        let k = m[i].0.clone();
                        ts.push((k, t));
                        assert(ts@.map_values(|e: (String, String)| (e.0@, e.1@)) =~= before.push(
                            (m@[i as int].0@, t@),
                        ));
                    },
                    None => {
                        proof {
                            lemma_entries_view(m@);
                            lemma_member_texts_fail(entries_view(m@), i as int);
                        }
                        return None;
                    },
                }
                i = i + 1;
            }
            assert(m@.subrange(0, i as int) =~= m@);
            compose(Layer::Obj(ts))
        },
    }
}

proof fn lemma_texts_fail(xs: Seq<JsonV>, i: int)
    requires
        0 <= i < xs.len(),
        text_of_json(xs[i]) is None,
    ensures
        texts_of(xs) is None,
    decreases xs.len(),
{
    if i < xs.len() - 1 {
        lemma_texts_fail(xs.drop_last(), i);
    }
}

proof fn lemma_member_texts_fail(es: Seq<(Seq<char>, JsonV)>, i: int)
    requires
        0 <= i < es.len(),
        text_of_json(es[i].1) is None,
    ensures
        member_texts(es) is None,
    decreases es.len(),
{
    if i < es.len() - 1 {
        lemma_member_texts_fail(es.drop_last(), i);
    }
}

} // verus!
