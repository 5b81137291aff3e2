//! The mock OpenAI-compatible API: which endpoint a request reaches, who
//! may call it, and the bodies it answers with. Sockets, clocks and JSON
//! text stay with the caller, which hands in parsed payloads as `Json`
//! values and fresh ids and timestamps.

use vstd::prelude::*;

use crate::text::{
    chars_of, decimal, eq_ignore_ascii_case, is_ws, join, join_strings, push_str, str_eq, string_of,
    sub_chars, trim, trim_str, u64_to_string, views,
};

verus! {

/// A JSON value, as the mock API reads and writes it.
#[derive(Debug)]
pub enum Json {
    Null,
    Bool(bool),
    /// A number that fits in `i64`.
    Int(i64),
    /// A non-negative whole number written in a response.
    UInt(u64),
    /// Any other number (its value plays no part in the rules).
    OtherNumber,
    Str(String),
    Arr(Vec<Json>),
    Obj(Vec<(String, Json)>),
}

/// The value stored under `key` in a list of object members (the first
/// such member).
pub open spec fn member(pairs: Seq<(String, Json)>, key: Seq<char>) -> Option<Json>
    decreases pairs.len(),
{
    if pairs.len() == 0 {
        None
    } else if pairs[0].0@ == key {
        Some(pairs[0].1)
    } else {
        member(pairs.drop_first(), key)
    }
}

/// `value[key]` for an object; nothing otherwise.
pub open spec fn json_get(value: Json, key: Seq<char>) -> Option<Json> {
    match value {
        Json::Obj(pairs) => member(pairs@, key),
        _ => None,
    }
}

pub open spec fn json_str(value: Option<Json>) -> Option<Seq<char>> {
    match value {
        Some(Json::Str(s)) => Some(s@),
        _ => None,
    }
}

pub open spec fn json_bool(value: Option<Json>) -> Option<bool> {
    match value {
        Some(Json::Bool(b)) => Some(b),
        _ => None,
    }
}

fn member_index(pairs: &Vec<(String, Json)>, key: &str) -> (r: usize)
    ensures
        r <= pairs.len(),
        r < pairs.len() ==> member(pairs@, key@) == Some(pairs@[r as int].1),
        r == pairs.len() ==> member(pairs@, key@) is None,
{
    let mut i: usize = 0;
    assert(pairs@.skip(0) =~= pairs@);
    while i < pairs.len()
        invariant
            i <= pairs.len(),
            member(pairs@, key@) == member(pairs@.skip(i as int), key@),
        decreases pairs.len() - i,
    {
        assert(pairs@.skip(i as int)[0] == pairs@[i as int]);
        assert(pairs@.skip(i as int).drop_first() =~= pairs@.skip(i + 1));
        if str_eq(pairs[i].0.as_str(), key) {
            return i;
        }
        i = i + 1;
    }
    i
}

/// `value[key]` for an object.
pub fn get<'a>(value: &'a Json, key: &str) -> (r: Option<&'a Json>)
    ensures
        match r {
            Some(v) => json_get(*value, key@) == Some(*v),
            None => json_get(*value, key@) is None,
        },
{
    match value {
        Json::Obj(pairs) => {
            let i = member_index(pairs, key);
            if i < pairs.len() {
                Some(&pairs[i].1)
            } else {
                None
            }
        },
        _ => None,
    }
}

pub(crate) fn get_str(value: &Json, key: &str) -> (r: Option<String>)
    ensures
        crate::config::opt_view(r) == json_str(json_get(*value, key@)),
{
    match get(value, key) {
        Some(Json::Str(s)) => Some(s.clone()),
        _ => None,
    }
}

fn get_bool(value: &Json, key: &str) -> (r: Option<bool>)
    ensures
        r == json_bool(json_get(*value, key@)),
{
    match get(value, key) {
        Some(Json::Bool(b)) => Some(*b),
        _ => None,
    }
}

// ---------------------------------------------------------------------------
// Text in request payloads
// ---------------------------------------------------------------------------

/// The text a list item gives: a string, or an object's `text` or
/// `input_text` string.
pub open spec fn item_text(item: Json) -> Option<Seq<char>> {
    match item {
        Json::Str(s) => Some(s@),
        Json::Obj(_) => match json_str(json_get(item, "text"@)) {
            Some(t) => Some(t),
            None => json_str(json_get(item, "input_text"@)),
        },
        _ => None,
    }
}

/// The texts of a list's items, in order.
pub open spec fn item_texts(items: Seq<Json>) -> Seq<Seq<char>>
    decreases items.len(),
{
    if items.len() == 0 {
        Seq::empty()
    } else {
        item_texts(items.drop_last()) + match item_text(items.last()) {
            Some(t) => seq![t],
            None => Seq::empty(),
        }
    }
}

/// The text of a message content: a string; a list's item texts joined
/// by spaces (none when there are none); an object's `content` (read the
/// same way), else its `text`, else its `input_text` string.
pub open spec fn json_text(value: Json) -> Option<Seq<char>>
    decreases value,
{
    match value {
        Json::Str(s) => Some(s@),
        Json::Arr(items) => {
            let parts = item_texts(items@);
            if parts.len() == 0 { None } else { Some(join(parts, " "@)) }
        },
        Json::Obj(pairs) => {
            let from_content = match member(pairs@, "content"@) {
                Some(c) => {
                    proof {
                        lemma_member_at(pairs@, "content"@);
                        let i = choose|i: int| 0 <= i < pairs@.len() && pairs@[i].1 == c;
                        assert(decreases_to!(value => pairs));
                        assert(decreases_to!(pairs => pairs@));
                        assert(decreases_to!(pairs@ => pairs@[i]));
                        assert(decreases_to!(pairs@[i] => pairs@[i].1));
                    }
                    json_text(c)
                },
                None => None,
            };
            match from_content {
                Some(t) => Some(t),
                None => match json_str(member(pairs@, "text"@)) {
                    Some(t) => Some(t),
                    None => json_str(member(pairs@, "input_text"@)),
                },
            }
        },
        _ => None,
    }
}

/// A member found under a key is one of the object's values.
pub proof fn lemma_member_at(pairs: Seq<(String, Json)>, key: Seq<char>)
    ensures
        member(pairs, key) matches Some(v) ==> exists|i: int| 0 <= i < pairs.len() && pairs[i].1 == v,
    decreases pairs.len(),
{
    if pairs.len() > 0 && pairs[0].0@ != key {
        lemma_member_at(pairs.drop_first(), key);
        if member(pairs, key) is Some {
            let v = member(pairs, key)->0;
            let i = choose|i: int| 0 <= i < pairs.drop_first().len() && pairs.drop_first()[i].1 == v;
            assert(pairs[i + 1].1 == v);
        }
    }
}


/// A JSON value as mathematics.
#[verifier::ext_equal]
pub enum JsonView {
    Null,
    Bool(bool),
    Int(i64),
    UInt(u64),
    OtherNumber,
    Str(Seq<char>),
    Arr(Seq<JsonView>),
    Obj(Seq<(Seq<char>, JsonView)>),
}

pub open spec fn json_view(j: Json) -> JsonView
    decreases j, 0int,
{
    match j {
        Json::Null => JsonView::Null,
        Json::Bool(b) => JsonView::Bool(b),
        Json::Int(i) => JsonView::Int(i),
        Json::UInt(u) => JsonView::UInt(u),
        Json::OtherNumber => JsonView::OtherNumber,
        Json::Str(s) => JsonView::Str(s@),
        Json::Arr(items) => {
            proof {
                assert(decreases_to!(j => items));
                assert(decreases_to!(items => items@));
            }
            JsonView::Arr(json_views(items@))
        },
        Json::Obj(pairs) => {
            proof {
                assert(decreases_to!(j => pairs));
                assert(decreases_to!(pairs => pairs@));
            }
            JsonView::Obj(member_views(pairs@))
        },
    }
}

pub open spec fn json_views(items: Seq<Json>) -> Seq<JsonView>
    decreases items, 1int,
{
    if items.len() == 0 {
        Seq::empty()
    } else {
        proof {
            assert(decreases_to!(items => items[0]));
            vstd::seq::axiom_seq_subrange_decreases(items, 1, items.len() as int);
        }
        seq![json_view(items[0])] + json_views(items.subrange(1, items.len() as int))
    }
}

pub open spec fn member_views(pairs: Seq<(String, Json)>) -> Seq<(Seq<char>, JsonView)>
    decreases pairs, 1int,
{
    if pairs.len() == 0 {
        Seq::empty()
    } else {
        proof {
            assert(decreases_to!(pairs => pairs[0]));
            assert(decreases_to!(pairs[0] => pairs[0].1));
            vstd::seq::axiom_seq_subrange_decreases(pairs, 1, pairs.len() as int);
        }
        seq![(pairs[0].0@, json_view(pairs[0].1))] + member_views(pairs.subrange(1, pairs.len() as int))
    }
}

impl View for Json {
    type V = JsonView;

    open spec fn view(&self) -> JsonView {
        json_view(*self)
    }
}


/// The views of a list of values, item by item.
pub proof fn lemma_json_views(items: Seq<Json>)
    ensures
        json_views(items) == items.map_values(|j: Json| json_view(j)),
    decreases items.len(),
{
    if items.len() > 0 {
        lemma_json_views(items.subrange(1, items.len() as int));
        assert(json_views(items) =~= items.map_values(|j: Json| json_view(j)));
    } else {
        assert(json_views(items) =~= items.map_values(|j: Json| json_view(j)));
    }
}

/// The views of an object's members, member by member.
pub proof fn lemma_member_views(pairs: Seq<(String, Json)>)
    ensures
        member_views(pairs) == pairs.map_values(|p: (String, Json)| (p.0@, json_view(p.1))),
    decreases pairs.len(),
{
    if pairs.len() > 0 {
        lemma_member_views(pairs.subrange(1, pairs.len() as int));
        assert(member_views(pairs) =~= pairs.map_values(|p: (String, Json)| (p.0@, json_view(p.1))));
    } else {
        assert(member_views(pairs) =~= pairs.map_values(|p: (String, Json)| (p.0@, json_view(p.1))));
    }
}

fn item_text_exec(item: &Json) -> (r: Option<String>)
    ensures
        crate::config::opt_view(r) == item_text(*item),
{
    match item {
        Json::Str(t) => Some(t.clone()),
        Json::Obj(_) => match get_str(item, "text") {
            Some(t) => Some(t),
            None => get_str(item, "input_text"),
        },
        _ => None,
    }
}

fn item_texts_exec(items: &Vec<Json>) -> (r: Vec<String>)
    ensures
        views(r@) == item_texts(items@),
{
    let mut out: Vec<String> = Vec::new();
    let mut i: usize = 0;
    assert(items@.take(0) =~= Seq::<Json>::empty());
    while i < items.len()
        invariant
            i <= items.len(),
            views(out@) == item_texts(items@.take(i as int)),
        decreases items.len() - i,
    {
        proof {
            assert(items@.take(i + 1).drop_last() =~= items@.take(i as int));
            assert(items@.take(i + 1).last() == items@[i as int]);
        }
        let ghost before = views(out@);
        match item_text_exec(&items[i]) {
            Some(t) => {
                out.push(t);
                assert(views(out@) =~= before + seq![item_text(items@[i as int])->0]);
            },
            None => {
                assert(views(out@) =~= before + Seq::<Seq<char>>::empty());
            },
        }
        i = i + 1;
    }
    assert(items@.take(items.len() as int) =~= items@);
    out
}

/// The text of a message content (see `json_text`).
pub fn extract_text(value: &Json) -> (r: Option<String>)
    ensures
        crate::config::opt_view(r) == json_text(*value),
    decreases value,
{
    match value {
        Json::Str(t) => Some(t.clone()),
        Json::Arr(items) => {
            let parts = item_texts_exec(items);
            if parts.len() == 0 {
                None
            } else {
                Some(join_strings(&parts, " "))
            }
        },
        Json::Obj(pairs) => {
            let i = member_index(pairs, "content");
            let from_content = if i < pairs.len() {
                proof {
                    assert(decreases_to!(*value => *pairs));
                    assert(decreases_to!(*pairs => pairs@));
                    assert(decreases_to!(pairs@ => pairs@[i as int]));
                    assert(decreases_to!(pairs@[i as int] => pairs@[i as int].1));
                }
                extract_text(&pairs[i].1)
            } else {
                None
            };
            match from_content {
                Some(t) => Some(t),
                None => match get_str(value, "text") {
                    Some(t) => Some(t),
                    None => get_str(value, "input_text"),
                },
            }
        },
        _ => None,
    }
}


/// The text of the last `user` message that has text.
pub open spec fn last_user_text(messages: Seq<Json>) -> Option<Seq<char>>
    decreases messages.len(),
{
    if messages.len() == 0 {
        None
    } else {
        let m = messages.last();
        let t = if json_str(json_get(m, "role"@)) == Some("user"@) {
            match json_get(m, "content"@) {
                Some(c) => json_text(c),
                None => None,
            }
        } else {
            None
        };
        if t is Some { t } else { last_user_text(messages.drop_last()) }
    }
}

pub open spec fn spec_last_user_message(payload: Json) -> Option<Seq<char>> {
    match json_get(payload, "messages"@) {
        Some(Json::Arr(items)) => last_user_text(items@),
        _ => None,
    }
}

pub fn extract_last_user_message(payload: &Json) -> (r: Option<String>)
    ensures
        crate::config::opt_view(r) == spec_last_user_message(*payload),
{
    let items = match get(payload, "messages") {
        Some(Json::Arr(items)) => items,
        _ => {
            return None;
        },
    };
    let mut i: usize = items.len();
    assert(items@.take(items.len() as int) =~= items@);
    while i > 0
        invariant
            i <= items.len(),
            json_get(*payload, "messages"@) == Some(Json::Arr(*items)),
            last_user_text(items@) == last_user_text(items@.take(i as int)),
        decreases i,
    {
        let m = &items[i - 1];
        proof {
            assert(items@.take(i as int).last() == *m);
            assert(items@.take(i as int).drop_last() =~= items@.take(i - 1));
        }
        proof {
            reveal_strlit("user");
        }
        let is_user = match get_str(m, "role") {
            Some(role) => str_eq(role.as_str(), "user"),
            None => false,
        };
        if is_user {
            if let Some(c) = get(m, "content") {
                if let Some(t) = extract_text(c) {
                    assert(json_get(*m, "content"@) == Some(*c));
                    assert(json_str(json_get(*m, "role"@)) == Some("user"@));
                    assert(last_user_text(items@.take(i as int)) == Some(t@));
                    return Some(t);
                }
            }
        }
        i = i - 1;
    }
    assert(items@.take(0) =~= Seq::<Json>::empty());
    None
}

/// The first string among the prompt's items.
pub open spec fn first_string(items: Seq<Json>) -> Option<Seq<char>>
    decreases items.len(),
{
    if items.len() == 0 {
        None
    } else if items[0] is Str {
        Some(items[0]->Str_0@)
    } else {
        first_string(items.drop_first())
    }
}

/// The prompt: a string, or the first string of a list.
pub open spec fn spec_prompt(payload: Json) -> Option<Seq<char>> {
    match json_get(payload, "prompt"@) {
        Some(Json::Str(p)) => Some(p@),
        Some(Json::Arr(items)) => first_string(items@),
        _ => None,
    }
}

pub fn extract_prompt(payload: &Json) -> (r: Option<String>)
    ensures
        crate::config::opt_view(r) == spec_prompt(*payload),
{
    match get(payload, "prompt") {
        Some(Json::Str(p)) => Some(p.clone()),
        Some(Json::Arr(items)) => {
            let mut i: usize = 0;
            assert(items@.skip(0) =~= items@);
            while i < items.len()
                invariant
                    i <= items.len(),
                    json_get(*payload, "prompt"@) == Some(Json::Arr(*items)),
                    first_string(items@) == first_string(items@.skip(i as int)),
                decreases items.len() - i,
            {
                assert(items@.skip(i as int)[0] == items@[i as int]);
                assert(items@.skip(i as int).drop_first() =~= items@.skip(i + 1));
                if let Json::Str(p) = &items[i] {
                    assert(items@[i as int] is Str);
                    assert(items@[i as int]->Str_0 == *p);
                    return Some(p.clone());
                }
                i = i + 1;
            }
            None
        },
        _ => None,
    }
}

/// The texts of the values that have one, in order.
pub open spec fn json_texts(items: Seq<Json>) -> Seq<Seq<char>>
    decreases items.len(),
{
    if items.len() == 0 {
        Seq::empty()
    } else {
        json_texts(items.drop_last()) + match json_text(items.last()) {
            Some(t) => seq![t],
            None => Seq::empty(),
        }
    }
}

fn json_texts_exec(items: &Vec<Json>) -> (r: Vec<String>)
    ensures
        views(r@) == json_texts(items@),
{
    let mut out: Vec<String> = Vec::new();
    let mut i: usize = 0;
    assert(items@.take(0) =~= Seq::<Json>::empty());
    while i < items.len()
        invariant
            i <= items.len(),
            views(out@) == json_texts(items@.take(i as int)),
        decreases items.len() - i,
    {
        proof {
            assert(items@.take(i + 1).drop_last() =~= items@.take(i as int));
            assert(items@.take(i + 1).last() == items@[i as int]);
        }
        let ghost before = views(out@);
        match extract_text(&items[i]) {
            Some(t) => {
                out.push(t);
                assert(views(out@) =~= before + seq![json_text(items@[i as int])->0]);
            },
            None => {
                assert(views(out@) =~= before + Seq::<Seq<char>>::empty());
            },
        }
        i = i + 1;
    }
    assert(items@.take(items.len() as int) =~= items@);
    out
}

/// The input of a Responses API request.
pub open spec fn spec_responses_input(payload: Json) -> Option<Seq<char>> {
    match json_get(payload, "input"@) {
        Some(Json::Str(t)) => Some(t@),
        Some(Json::Arr(items)) => {
            let texts = json_texts(items@);
            if texts.len() == 0 { None } else { Some(join(texts, " "@)) }
        },
        Some(v) => json_text(v),
        None => None,
    }
}

pub fn extract_responses_input(payload: &Json) -> (r: Option<String>)
    ensures
        crate::config::opt_view(r) == spec_responses_input(*payload),
{
    match get(payload, "input") {
        Some(Json::Str(t)) => Some(t.clone()),
        Some(Json::Arr(items)) => {
            let texts = json_texts_exec(items);
            if texts.len() == 0 {
                None
            } else {
                Some(join_strings(&texts, " "))
            }
        },
        Some(v) => extract_text(v),
        None => None,
    }
}

/// An `i64` in decimal.
pub open spec fn int_text(i: i64) -> Seq<char> {
    if i < 0 { "-"@ + decimal((-i) as nat) } else { decimal(i as nat) }
}

fn i64_to_string(i: i64) -> (r: String)
    ensures
        r@ == int_text(i),
{
    if i < 0 {
        let magnitude: u64 = ((-(i + 1)) as u64) + 1;
        let mut r = "-".to_owned();
        push_str(&mut r, u64_to_string(magnitude).as_str());
        r
    } else {
        u64_to_string(i as u64)
    }
}

/// The whole numbers among token ids, in order.
pub open spec fn token_ids(items: Seq<Json>) -> Seq<Seq<char>>
    decreases items.len(),
{
    if items.len() == 0 {
        Seq::empty()
    } else {
        token_ids(items.drop_last()) + match items.last() {
            Json::Int(i) => seq![int_text(i)],
            _ => Seq::empty(),
        }
    }
}

/// One embedding input: a string, token ids spaced, or another value's text.
pub open spec fn embedding_input(v: Json) -> Option<Seq<char>> {
    match v {
        Json::Str(t) => Some(t@),
        Json::Arr(tokens) => Some(join(token_ids(tokens@), " "@)),
        _ => json_text(v),
    }
}

pub open spec fn embedding_inputs_of(values: Seq<Json>) -> Seq<Seq<char>>
    decreases values.len(),
{
    if values.len() == 0 {
        Seq::empty()
    } else {
        embedding_inputs_of(values.drop_last()) + match embedding_input(values.last()) {
            Some(t) => seq![t],
            None => Seq::empty(),
        }
    }
}

/// The inputs of an embeddings request.
pub open spec fn spec_embedding_inputs(payload: Json) -> Seq<Seq<char>> {
    match json_get(payload, "input"@) {
        Some(Json::Str(t)) => seq![t@],
        Some(Json::Arr(values)) => embedding_inputs_of(values@),
        Some(v) => match json_text(v) {
            Some(t) => seq![t],
            None => Seq::empty(),
        },
        None => Seq::empty(),
    }
}

fn token_ids_text(tokens: &Vec<Json>) -> (r: String)
    ensures
        r@ == join(token_ids(tokens@), " "@),
{
    let mut out: Vec<String> = Vec::new();
    let mut i: usize = 0;
    assert(tokens@.take(0) =~= Seq::<Json>::empty());
    while i < tokens.len()
        invariant
            i <= tokens.len(),
            views(out@) == token_ids(tokens@.take(i as int)),
        decreases tokens.len() - i,
    {
        proof {
            assert(tokens@.take(i + 1).drop_last() =~= tokens@.take(i as int));
            assert(tokens@.take(i + 1).last() == tokens@[i as int]);
        }
        let ghost before = views(out@);
        if let Json::Int(v) = &tokens[i] {
            out.push(i64_to_string(*v));
            assert(views(out@) =~= before + seq![int_text(*v)]);
        } else {
            assert(views(out@) =~= before + Seq::<Seq<char>>::empty());
        }
        i = i + 1;
    }
    assert(tokens@.take(tokens.len() as int) =~= tokens@);
    join_strings(&out, " ")
}

fn embedding_input_exec(v: &Json) -> (r: Option<String>)
    ensures
        crate::config::opt_view(r) == embedding_input(*v),
{
    match v {
        Json::Str(t) => Some(t.clone()),
        Json::Arr(tokens) => Some(token_ids_text(tokens)),
        _ => extract_text(v),
    }
}

pub fn extract_embedding_inputs(payload: &Json) -> (r: Vec<String>)
    ensures
        views(r@) == spec_embedding_inputs(*payload),
{
    match get(payload, "input") {
        Some(Json::Str(t)) => {
            let mut out: Vec<String> = Vec::new();
            out.push(t.clone());
            assert(views(out@) =~= seq![t@]);
            out
        },
        Some(Json::Arr(values)) => {
            let mut out: Vec<String> = Vec::new();
            let mut i: usize = 0;
            assert(values@.take(0) =~= Seq::<Json>::empty());
            while i < values.len()
                invariant
                    i <= values.len(),
                    views(out@) == embedding_inputs_of(values@.take(i as int)),
                decreases values.len() - i,
            {
                proof {
                    assert(values@.take(i + 1).drop_last() =~= values@.take(i as int));
                    assert(values@.take(i + 1).last() == values@[i as int]);
                }
                let ghost before = views(out@);
                match embedding_input_exec(&values[i]) {
                    Some(t) => {
                        out.push(t);
                        assert(views(out@) =~= before + seq![embedding_input(values@[i as int])->0]);
                    },
                    None => {
                        assert(views(out@) =~= before + Seq::<Seq<char>>::empty());
                    },
                }
                i = i + 1;
            }
            assert(values@.take(values.len() as int) =~= values@);
            out
        },
        Some(v) => {
            let mut out: Vec<String> = Vec::new();
            if let Some(t) = extract_text(v) {
                out.push(t);
            }
            assert(views(out@) =~= match json_text(*v) { Some(t) => seq![t], None => Seq::<Seq<char>>::empty() });
            out
        },
        None => Vec::new(),
    }
}


// ---------------------------------------------------------------------------
// Tokens, streaming chunks, embeddings
// ---------------------------------------------------------------------------

/// The number of whitespace-separated words.
pub open spec fn word_count(s: Seq<char>) -> nat
    decreases s.len(),
{
    if s.len() == 0 {
        0
    } else {
        word_count(s.drop_last()) + if !is_ws(s.last()) && (s.len() == 1 || is_ws(s[s.len() - 2])) { 1nat } else { 0nat }
    }
}

/// A rough token count: the words, at least one.
pub open spec fn token_estimate(s: Seq<char>) -> nat {
    if word_count(s) == 0 { 1 } else { word_count(s) }
}

pub fn approximate_tokens(text: &str) -> (r: u64)
    ensures
        r == token_estimate(text@),
{
    let v = chars_of(text);
    let mut count: u64 = 0;
    let mut i: usize = 0;
    assert(v@.take(0) =~= Seq::<char>::empty());
    while i < v.len()
        invariant
            i <= v.len(),
            count == word_count(v@.take(i as int)),
            count <= i,
        decreases v.len() - i,
    {
        proof {
            assert(v@.take(i + 1).drop_last() =~= v@.take(i as int));
            assert(v@.take(i + 1).last() == v@[i as int]);
            if i > 0 {
                assert(v@.take(i + 1)[i - 1] == v@[i - 1]);
            }
        }
        if !crate::text::char_is_ws(v[i]) && (i == 0 || crate::text::char_is_ws(v[i - 1])) {
            count = count + 1;
        }
        i = i + 1;
    }
    assert(v@.take(v.len() as int) =~= v@);
    if count == 0 { 1 } else { count }
}

/// Pieces of at most eighteen characters, in order.
pub open spec fn chunks_of_18(s: Seq<char>) -> Seq<Seq<char>>
    decreases s.len(),
{
    if s.len() <= 18 {
        seq![s]
    } else {
        seq![s.take(18)] + chunks_of_18(s.skip(18))
    }
}

/// How a text is streamed: eighteen characters at a time (one empty
/// piece for an empty text).
pub open spec fn stream_chunks(s: Seq<char>) -> Seq<Seq<char>> {
    chunks_of_18(s)
}

pub fn split_for_streaming(text: &str) -> (r: Vec<String>)
    ensures
        views(r@) == stream_chunks(text@),
{
    let v = chars_of(text);
    let mut out: Vec<String> = Vec::new();
    if v.len() == 0 {
        out.push(String::new());
        assert(v@ =~= Seq::<char>::empty());
        assert(views(out@) =~= seq![v@]);
        return out;
    }
    let mut index: usize = 0;
    assert(v@.skip(0) =~= v@);
    assert(views(out@) + chunks_of_18(v@) =~= chunks_of_18(v@));
    while index < v.len()
        invariant
            index <= v.len(),
            index < v.len() ==> views(out@) + chunks_of_18(v@.skip(index as int)) == chunks_of_18(v@),
            index == v.len() ==> views(out@) == chunks_of_18(v@),
            v@.len() > 0,
            index == 0 ==> out@.len() == 0,
        decreases v.len() - index,
    {
        let end = if v.len() - index < 18 { v.len() } else { index + 18 };
        let ghost rest = v@.skip(index as int);
        let ghost before = views(out@);
        if index == 0 {
            assert(rest =~= v@);
            assert(before =~= Seq::<Seq<char>>::empty());
        }
        out.push(string_of(&sub_chars(&v, index, end)));
        proof {
            if rest.len() <= 18 {
                assert(v@.subrange(index as int, end as int) =~= rest);
                assert(views(out@) =~= before + chunks_of_18(rest));
            } else {
                assert(v@.subrange(index as int, end as int) =~= rest.take(18));
                assert(rest.skip(18) =~= v@.skip(end as int));
                assert(views(out@) + chunks_of_18(v@.skip(end as int)) =~= before + chunks_of_18(rest));
            }
        }
        index = end;
    }
    out
}

/// FNV-1a over bytes (64-bit, wrapping).
pub open spec fn fnv1a(bytes: Seq<u8>) -> u64
    decreases bytes.len(),
{
    if bytes.len() == 0 {
        0xcbf29ce484222325u64
    } else {
        (((fnv1a(bytes.drop_last()) ^ (bytes.last() as u64)) as nat * 0x100000001b3nat) % 0x1_0000_0000_0000_0000nat) as u64
    }
}

pub fn fnv1a_hash(bytes: &[u8]) -> (r: u64)
    ensures
        r == fnv1a(bytes@),
{
    let mut hash: u64 = 0xcbf29ce484222325u64;
    let mut i: usize = 0;
    assert(bytes@.take(0) =~= Seq::<u8>::empty());
    while i < bytes.len()
        invariant
            i <= bytes.len(),
            hash == fnv1a(bytes@.take(i as int)),
        decreases bytes.len() - i,
    {
        proof {
            assert(bytes@.take(i + 1).drop_last() =~= bytes@.take(i as int));
            assert(bytes@.take(i + 1).last() == bytes@[i as int]);
        }
        hash = hash ^ (bytes[i] as u64);
        hash = hash.wrapping_mul(0x100000001b3);
        i = i + 1;
    }
    assert(bytes@.take(bytes.len() as int) =~= bytes@);
    hash
}

/// One step of the embedding's linear congruential generator (64-bit,
/// wrapping multiply then wrapping add).
pub open spec fn lcg_step(state: u64) -> u64 {
    ((((state as nat * 6364136223846793005nat) % 0x1_0000_0000_0000_0000nat) + 1442695040888963407nat)
        % 0x1_0000_0000_0000_0000nat) as u64
}

/// The generator state after `n` steps.
pub open spec fn lcg_after(state: u64, n: nat) -> u64
    decreases n,
{
    if n == 0 {
        state
    } else {
        lcg_step(lcg_after(state, (n - 1) as nat))
    }
}

fn lcg_next(state: u64) -> (r: u64)
    ensures
        r == lcg_step(state),
{
    let m = state.wrapping_mul(6364136223846793005);
    m.wrapping_add(1442695040888963407)
}

/// The high 31 bits of each state the generator passes through, seeded
/// with the input's FNV-1a hash. Component `i` of a mock embedding is
/// `2 * v / u32::MAX - 1` for the `i`-th value `v`.
pub fn embedding_states(input: &str, dimensions: usize) -> (r: Vec<u32>)
    ensures
        r@.len() == dimensions,
        forall|i: int| 0 <= i < dimensions ==> #[trigger] r@[i] == (lcg_after(fnv1a(vstd::utf8::encode_utf8(input@)), (i + 1) as nat) >> 33u64) as u32,
{
    let mut state = fnv1a_hash(input.as_bytes());
    let ghost seed = state;
    let mut out: Vec<u32> = Vec::new();
    let mut i: usize = 0;
    while i < dimensions
        invariant
            i <= dimensions,
            out@.len() == i,
            state == lcg_after(seed, i as nat),
            seed == fnv1a(vstd::utf8::encode_utf8(input@)),
            forall|k: int| 0 <= k < i ==> #[trigger] out@[k] == (lcg_after(seed, (k + 1) as nat) >> 33u64) as u32,
        decreases dimensions - i,
    {
        state = lcg_next(state);
        let v = (state >> 33) as u32;
        out.push(v);
        i = i + 1;
    }
    out
}

/// Server-sent events: each serialized event as a `data:` line, then `[DONE]`.
pub open spec fn sse_frames(events: Seq<Seq<char>>) -> Seq<char>
    decreases events.len(),
{
    if events.len() == 0 {
        Seq::empty()
    } else {
        sse_frames(events.drop_last()) + "data: "@ + events.last() + "\n\n"@
    }
}

pub fn to_sse_body(events: &Vec<String>) -> (r: String)
    ensures
        r@ == sse_frames(views(events@)) + "data: [DONE]\n\n"@,
{
    let mut out = String::new();
    let mut i: usize = 0;
    assert(views(events@).take(0) =~= Seq::<Seq<char>>::empty());
    while i < events.len()
        invariant
            i <= events.len(),
            out@ == sse_frames(views(events@).take(i as int)),
        decreases events.len() - i,
    {
        proof {
            assert(views(events@).take(i + 1).drop_last() =~= views(events@).take(i as int));
            assert(views(events@).take(i + 1).last() == events@[i as int]@);
        }
        push_str(&mut out, "data: ");
        push_str(&mut out, events[i].as_str());
        push_str(&mut out, "\n\n");
        i = i + 1;
        assert(out@ =~= sse_frames(views(events@).take(i as int)));
    }
    assert(views(events@).take(events.len() as int) =~= views(events@));
    push_str(&mut out, "data: [DONE]\n\n");
    out
}


// ---------------------------------------------------------------------------
// Requests
// ---------------------------------------------------------------------------

/// The options of the mock API server.
#[derive(Debug, Clone)]
pub struct MockApiArgs {
    pub host: String,
    pub port: u16,
    pub model: String,
    pub api_key: String,
}

impl MockApiArgs {
    /// The defaults: all interfaces, port 8000, the default model, `local-key`.
    pub fn defaults() -> (r: Self)
        ensures
            r.host@ == "0.0.0.0"@,
            r.port == 8000,
            r.model@ == "Qwen/Qwen2.5-7B-Instruct"@,
            r.api_key@ == "local-key"@,
    {
        MockApiArgs {
            host: "0.0.0.0".to_owned(),
            port: 8000,
            model: "Qwen/Qwen2.5-7B-Instruct".to_owned(),
            api_key: "local-key".to_owned(),
        }
    }
}

#[derive(Debug, Clone, Copy, PartialEq, Eq, Structural)]
pub enum HttpMethod {
    Get,
    Post,
    Options,
    Other,
}

/// What the mock server does with a request.
#[derive(Debug, Clone)]
pub enum MockRoute {
    /// A CORS preflight: `204` with an empty body.
    Preflight,
    /// A missing or wrong API key: `401`.
    Unauthorized,
    ModelInfo(String),
    StoredResponse(String),
    Health,
    ModelList,
    ChatCompletions,
    Completions,
    Embeddings,
    Responses,
    AudioTranscriptions,
    AudioSpeech,
    /// No such endpoint: `404` naming the path.
    NotFound(String),
}

/// The path of a URL: everything before the first `?`.
pub open spec fn url_path(url: Seq<char>) -> Seq<char>
    decreases url.len(),
{
    if url.len() == 0 || url[0] == '?' {
        Seq::empty()
    } else {
        seq![url[0]] + url_path(url.drop_first())
    }
}

pub fn normalize_path(url: &str) -> (r: String)
    ensures
        r@ == url_path(url@),
{
    let v = chars_of(url);
    let mut i: usize = 0;
    while i < v.len() && v[i] != '?'
        invariant
            i <= v.len(),
            forall|k: int| 0 <= k < i ==> v@[k] != '?',
        decreases v.len() - i,
    {
        i = i + 1;
    }
    proof {
        lemma_url_path(v@, i as int);
    }
    string_of(&sub_chars(&v, 0, i))
}

proof fn lemma_url_path(s: Seq<char>, i: int)
    requires
        0 <= i <= s.len(),
        forall|k: int| 0 <= k < i ==> s[k] != '?',
        i == s.len() || s[i] == '?',
    ensures
        url_path(s) == s.subrange(0, i),
    decreases i,
{
    if i == 0 {
        assert(s.subrange(0, 0) =~= Seq::<char>::empty());
    } else {
        assert forall|k: int| 0 <= k < i - 1 implies s.drop_first()[k] != '?' by {
            assert(s.drop_first()[k] == s[k + 1]);
        }
        lemma_url_path(s.drop_first(), i - 1);
        assert(s.subrange(0, i) =~= seq![s[0]] + s.drop_first().subrange(0, i - 1));
    }
}

/// `str::trim_start_matches`: every leading copy of `prefix` removed.
pub open spec fn strip_prefixes(s: Seq<char>, prefix: Seq<char>) -> Seq<char>
    decreases s.len(),
{
    if prefix.len() > 0 && crate::text::starts_with(s, prefix) {
        strip_prefixes(s.skip(prefix.len() as int), prefix)
    } else {
        s
    }
}

fn strip_prefixes_exec(s: &str, prefix: &str) -> (r: String)
    requires
        prefix@.len() > 0,
    ensures
        r@ == strip_prefixes(s@, prefix@),
{
    let v = chars_of(s);
    let p = chars_of(prefix);
    let mut i: usize = 0;
    assert(v@.skip(0) =~= v@);
    while i <= v.len() && p.len() <= v.len() - i && crate::text::chars_match_at(&v, i, &p)
        invariant
            i <= v.len(),
            p@ == prefix@,
            p@.len() > 0,
            strip_prefixes(s@, prefix@) == strip_prefixes(v@.skip(i as int), p@),
            v@ == s@,
        decreases v.len() - i,
    {
        proof {
            assert(v@.skip(i as int).subrange(0, p@.len() as int) =~= v@.subrange(i as int, i + p@.len()));
            assert(v@.skip(i as int).skip(p@.len() as int) =~= v@.skip(i + p@.len()));
        }
        i = i + p.len();
    }
    proof {
        if p.len() <= v.len() - i {
            assert(v@.skip(i as int).subrange(0, p@.len() as int) =~= v@.subrange(i as int, i + p@.len()));
        }
    }
    let out = sub_chars(&v, i, v.len());
    assert(out@ =~= v@.skip(i as int));
    string_of(&out)
}

/// The `Authorization` header (any ASCII case) that admits a caller.
pub open spec fn bearer_matches(headers: Seq<(Seq<char>, Seq<char>)>, api_key: Seq<char>) -> bool {
    exists|i: int| 0 <= i < headers.len()
        && crate::text::ascii_lower(#[trigger] headers[i].0) == crate::text::ascii_lower("Authorization"@)
        && headers[i].1 == "Bearer "@ + api_key
}

pub open spec fn header_views(headers: Seq<(String, String)>) -> Seq<(Seq<char>, Seq<char>)> {
    headers.map_values(|h: (String, String)| (h.0@, h.1@))
}

/// Anyone may call when no key is set; otherwise the request must carry
/// `Authorization: Bearer <key>`.
pub open spec fn authorized(api_key: Seq<char>, headers: Seq<(Seq<char>, Seq<char>)>) -> bool {
    trim(api_key).len() == 0 || bearer_matches(headers, api_key)
}

pub fn is_authorized(api_key: &str, headers: &Vec<(String, String)>) -> (r: bool)
    ensures
        r == authorized(api_key@, header_views(headers@)),
{
    if trim_str(api_key).as_str().is_empty() {
        return true;
    }
    let mut expected = "Bearer ".to_owned();
    push_str(&mut expected, api_key);
    let ghost hv = header_views(headers@);
    let mut i: usize = 0;
    while i < headers.len()
        invariant
            i <= headers.len(),
            hv == header_views(headers@),
            expected@ == "Bearer "@ + api_key@,
            forall|k: int| 0 <= k < i ==> !(crate::text::ascii_lower(#[trigger] hv[k].0) == crate::text::ascii_lower("Authorization"@)
                && hv[k].1 == "Bearer "@ + api_key@),
        decreases headers.len() - i,
    {
        assert(hv[i as int] == (headers@[i as int].0@, headers@[i as int].1@));
        if eq_ignore_ascii_case(headers[i].0.as_str(), "Authorization") && headers[i].1 == expected {
            assert(crate::text::ascii_lower(hv[i as int].0) == crate::text::ascii_lower("Authorization"@)
                && hv[i as int].1 == "Bearer "@ + api_key@);
            assert(bearer_matches(hv, api_key@));
            return true;
        }
        i = i + 1;
    }
    false
}

/// Where a request goes.
pub open spec fn spec_route(method: HttpMethod, path: Seq<char>, authorized: bool) -> MockRouteView {
    if method == HttpMethod::Options {
        MockRouteView::Preflight
    } else if !authorized {
        MockRouteView::Unauthorized
    } else if method == HttpMethod::Get && crate::text::starts_with(path, "/v1/models/"@) {
        MockRouteView::ModelInfo(strip_prefixes(path, "/v1/models/"@))
    } else if method == HttpMethod::Get && crate::text::starts_with(path, "/v1/responses/"@) {
        MockRouteView::StoredResponse(strip_prefixes(path, "/v1/responses/"@))
    } else if method == HttpMethod::Get && (path == "/health"@ || path == "/v1/health"@) {
        MockRouteView::Health
    } else if method == HttpMethod::Get && path == "/v1/models"@ {
        MockRouteView::ModelList
    } else if method == HttpMethod::Post && path == "/v1/chat/completions"@ {
        MockRouteView::ChatCompletions
    } else if method == HttpMethod::Post && path == "/v1/completions"@ {
        MockRouteView::Completions
    } else if method == HttpMethod::Post && path == "/v1/embeddings"@ {
        MockRouteView::Embeddings
    } else if method == HttpMethod::Post && path == "/v1/responses"@ {
        MockRouteView::Responses
    } else if method == HttpMethod::Post && path == "/v1/audio/transcriptions"@ {
        MockRouteView::AudioTranscriptions
    } else if method == HttpMethod::Post && path == "/v1/audio/speech"@ {
        MockRouteView::AudioSpeech
    } else {
        MockRouteView::NotFound(path)
    }
}

pub enum MockRouteView {
    Preflight,
    Unauthorized,
    ModelInfo(Seq<char>),
    StoredResponse(Seq<char>),
    Health,
    ModelList,
    ChatCompletions,
    Completions,
    Embeddings,
    Responses,
    AudioTranscriptions,
    AudioSpeech,
    NotFound(Seq<char>),
}

impl View for MockRoute {
    type V = MockRouteView;

    open spec fn view(&self) -> MockRouteView {
        match self {
            MockRoute::Preflight => MockRouteView::Preflight,
            MockRoute::Unauthorized => MockRouteView::Unauthorized,
            MockRoute::ModelInfo(n) => MockRouteView::ModelInfo(n@),
            MockRoute::StoredResponse(n) => MockRouteView::StoredResponse(n@),
            MockRoute::Health => MockRouteView::Health,
            MockRoute::ModelList => MockRouteView::ModelList,
            MockRoute::ChatCompletions => MockRouteView::ChatCompletions,
            MockRoute::Completions => MockRouteView::Completions,
            MockRoute::Embeddings => MockRouteView::Embeddings,
            MockRoute::Responses => MockRouteView::Responses,
            MockRoute::AudioTranscriptions => MockRouteView::AudioTranscriptions,
            MockRoute::AudioSpeech => MockRouteView::AudioSpeech,
            MockRoute::NotFound(p) => MockRouteView::NotFound(p@),
        }
    }
}

/// With an API key set, a request other than a CORS preflight that does
/// not carry `Authorization: Bearer <key>` is refused (`401`), whatever its
/// path; a preflight is always answered.
pub proof fn lemma_wrong_key_is_refused(method: HttpMethod, url: Seq<char>, headers: Seq<(Seq<char>, Seq<char>)>, api_key: Seq<char>)
    ensures
        method == HttpMethod::Options ==> spec_route(method, url_path(url), authorized(api_key, headers)) == MockRouteView::Preflight,
        method != HttpMethod::Options && trim(api_key).len() > 0 && !bearer_matches(headers, api_key)
            ==> spec_route(method, url_path(url), authorized(api_key, headers)) == MockRouteView::Unauthorized,
        method != HttpMethod::Options && authorized(api_key, headers)
            ==> spec_route(method, url_path(url), authorized(api_key, headers)) != MockRouteView::Unauthorized,
{
}

/// Every server-sent event stream ends with the `[DONE]` frame.
pub proof fn lemma_sse_ends_with_done(events: Seq<Seq<char>>)
    ensures
        ({
            let body = sse_frames(events) + "data: [DONE]\n\n"@;
            body.subrange(body.len() - "data: [DONE]\n\n"@.len(), body.len() as int) == "data: [DONE]\n\n"@
        }),
{
    let body = sse_frames(events) + "data: [DONE]\n\n"@;
    assert(body.subrange(body.len() - "data: [DONE]\n\n"@.len(), body.len() as int) =~= "data: [DONE]\n\n"@);
}

/// Routes a request by method, URL and headers.
pub fn route_request(method: HttpMethod, url: &str, headers: &Vec<(String, String)>, api_key: &str) -> (r: MockRoute)
    ensures
        r@ == spec_route(method, url_path(url@), authorized(api_key@, header_views(headers@))),
{
    let path = normalize_path(url);
    if method == HttpMethod::Options {
        return MockRoute::Preflight;
    }
    if !is_authorized(api_key, headers) {
        return MockRoute::Unauthorized;
    }
    let p = path.as_str();
    proof {
        reveal_strlit("/v1/models/");
        reveal_strlit("/v1/responses/");
    }
    let pv = chars_of(p);
    if method == HttpMethod::Get && crate::text::chars_starts_with(&pv, &chars_of("/v1/models/")) {
        return MockRoute::ModelInfo(strip_prefixes_exec(p, "/v1/models/"));
    }
    if method == HttpMethod::Get && crate::text::chars_starts_with(&pv, &chars_of("/v1/responses/")) {
        return MockRoute::StoredResponse(strip_prefixes_exec(p, "/v1/responses/"));
    }
    if method == HttpMethod::Get && (str_eq(p, "/health") || str_eq(p, "/v1/health")) {
        MockRoute::Health
    } else if method == HttpMethod::Get && str_eq(p, "/v1/models") {
        MockRoute::ModelList
    } else if method == HttpMethod::Post && str_eq(p, "/v1/chat/completions") {
        MockRoute::ChatCompletions
    } else if method == HttpMethod::Post && str_eq(p, "/v1/completions") {
        MockRoute::Completions
    } else if method == HttpMethod::Post && str_eq(p, "/v1/embeddings") {
        MockRoute::Embeddings
    } else if method == HttpMethod::Post && str_eq(p, "/v1/responses") {
        MockRoute::Responses
    } else if method == HttpMethod::Post && str_eq(p, "/v1/audio/transcriptions") {
        MockRoute::AudioTranscriptions
    } else if method == HttpMethod::Post && str_eq(p, "/v1/audio/speech") {
        MockRoute::AudioSpeech
    } else {
        MockRoute::NotFound(path)
    }
}


// ---------------------------------------------------------------------------
// Response bodies
// ---------------------------------------------------------------------------

fn jstr(s: &str) -> (r: Json)
    ensures
        r@ == JsonView::Str(s@),
{
    Json::Str(s.to_owned())
}

fn jobj(fields: Vec<(String, Json)>) -> (r: Json)
    ensures
        r@ == JsonView::Obj(fields@.map_values(|p: (String, Json)| (p.0@, p.1@))),
{
    proof {
        lemma_member_views(fields@);
        assert(fields@.map_values(|p: (String, Json)| (p.0@, json_view(p.1))) =~= fields@.map_values(|p: (String, Json)| (p.0@, p.1@)));
    }
    Json::Obj(fields)
}

fn jarr(items: Vec<Json>) -> (r: Json)
    ensures
        r@ == JsonView::Arr(items@.map_values(|j: Json| j@)),
{
    proof {
        lemma_json_views(items@);
        assert(items@.map_values(|j: Json| json_view(j)) =~= items@.map_values(|j: Json| j@));
    }
    Json::Arr(items)
}

fn field(key: &str, value: Json) -> (r: (String, Json))
    ensures
        r.0@ == key@,
        r.1 == value,
{
    (key.to_owned(), value)
}


fn obj1(k0: &str, v0: Json) -> (r: Json)
    ensures
        r@ == JsonView::Obj(seq![(k0@, v0@)]),
{
    let ghost g0 = v0@;
    let mut f: Vec<(String, Json)> = Vec::new();
    f.push(field(k0, v0));
    let ghost fv = f@.map_values(|p: (String, Json)| (p.0@, p.1@));
    assert(fv[0] == (k0@, g0));
    assert(fv =~= seq![(k0@, g0)]);
    jobj(f)
}

fn obj2(k0: &str, v0: Json, k1: &str, v1: Json) -> (r: Json)
    ensures
        r@ == JsonView::Obj(seq![(k0@, v0@), (k1@, v1@)]),
{
    let ghost g0 = v0@;
    let ghost g1 = v1@;
    let mut f: Vec<(String, Json)> = Vec::new();
    f.push(field(k0, v0));
    f.push(field(k1, v1));
    let ghost fv = f@.map_values(|p: (String, Json)| (p.0@, p.1@));
    assert(fv[0] == (k0@, g0));
    assert(fv[1] == (k1@, g1));
    assert(fv =~= seq![(k0@, g0), (k1@, g1)]);
    jobj(f)
}

fn obj3(k0: &str, v0: Json, k1: &str, v1: Json, k2: &str, v2: Json) -> (r: Json)
    ensures
        r@ == JsonView::Obj(seq![(k0@, v0@), (k1@, v1@), (k2@, v2@)]),
{
    let ghost g0 = v0@;
    let ghost g1 = v1@;
    let ghost g2 = v2@;
    let mut f: Vec<(String, Json)> = Vec::new();
    f.push(field(k0, v0));
    f.push(field(k1, v1));
    f.push(field(k2, v2));
    let ghost fv = f@.map_values(|p: (String, Json)| (p.0@, p.1@));
    assert(fv[0] == (k0@, g0));
    assert(fv[1] == (k1@, g1));
    assert(fv[2] == (k2@, g2));
    assert(fv =~= seq![(k0@, g0), (k1@, g1), (k2@, g2)]);
    jobj(f)
}

fn obj4(k0: &str, v0: Json, k1: &str, v1: Json, k2: &str, v2: Json, k3: &str, v3: Json) -> (r: Json)
    ensures
        r@ == JsonView::Obj(seq![(k0@, v0@), (k1@, v1@), (k2@, v2@), (k3@, v3@)]),
{
    let ghost g0 = v0@;
    let ghost g1 = v1@;
    let ghost g2 = v2@;
    let ghost g3 = v3@;
    let mut f: Vec<(String, Json)> = Vec::new();
    f.push(field(k0, v0));
    f.push(field(k1, v1));
    f.push(field(k2, v2));
    f.push(field(k3, v3));
    let ghost fv = f@.map_values(|p: (String, Json)| (p.0@, p.1@));
    assert(fv[0] == (k0@, g0));
    assert(fv[1] == (k1@, g1));
    assert(fv[2] == (k2@, g2));
    assert(fv[3] == (k3@, g3));
    assert(fv =~= seq![(k0@, g0), (k1@, g1), (k2@, g2), (k3@, g3)]);
    jobj(f)
}

fn obj5(k0: &str, v0: Json, k1: &str, v1: Json, k2: &str, v2: Json, k3: &str, v3: Json, k4: &str, v4: Json) -> (r: Json)
    ensures
        r@ == JsonView::Obj(seq![(k0@, v0@), (k1@, v1@), (k2@, v2@), (k3@, v3@), (k4@, v4@)]),
{
    let ghost g0 = v0@;
    let ghost g1 = v1@;
    let ghost g2 = v2@;
    let ghost g3 = v3@;
    let ghost g4 = v4@;
    let mut f: Vec<(String, Json)> = Vec::new();
    f.push(field(k0, v0));
    f.push(field(k1, v1));
    f.push(field(k2, v2));
    f.push(field(k3, v3));
    f.push(field(k4, v4));
    let ghost fv = f@.map_values(|p: (String, Json)| (p.0@, p.1@));
    assert(fv[0] == (k0@, g0));
    assert(fv[1] == (k1@, g1));
    assert(fv[2] == (k2@, g2));
    assert(fv[3] == (k3@, g3));
    assert(fv[4] == (k4@, g4));
    assert(fv =~= seq![(k0@, g0), (k1@, g1), (k2@, g2), (k3@, g3), (k4@, g4)]);
    jobj(f)
}

fn obj6(k0: &str, v0: Json, k1: &str, v1: Json, k2: &str, v2: Json, k3: &str, v3: Json, k4: &str, v4: Json, k5: &str, v5: Json) -> (r: Json)
    ensures
        r@ == JsonView::Obj(seq![(k0@, v0@), (k1@, v1@), (k2@, v2@), (k3@, v3@), (k4@, v4@), (k5@, v5@)]),
{
    let ghost g0 = v0@;
    let ghost g1 = v1@;
    let ghost g2 = v2@;
    let ghost g3 = v3@;
    let ghost g4 = v4@;
    let ghost g5 = v5@;
    let mut f: Vec<(String, Json)> = Vec::new();
    f.push(field(k0, v0));
    f.push(field(k1, v1));
    f.push(field(k2, v2));
    f.push(field(k3, v3));
    f.push(field(k4, v4));
    f.push(field(k5, v5));
    let ghost fv = f@.map_values(|p: (String, Json)| (p.0@, p.1@));
    assert(fv[0] == (k0@, g0));
    assert(fv[1] == (k1@, g1));
    assert(fv[2] == (k2@, g2));
    assert(fv[3] == (k3@, g3));
    assert(fv[4] == (k4@, g4));
    assert(fv[5] == (k5@, g5));
    assert(fv =~= seq![(k0@, g0), (k1@, g1), (k2@, g2), (k3@, g3), (k4@, g4), (k5@, g5)]);
    jobj(f)
}

fn obj7(k0: &str, v0: Json, k1: &str, v1: Json, k2: &str, v2: Json, k3: &str, v3: Json, k4: &str, v4: Json, k5: &str, v5: Json, k6: &str, v6: Json) -> (r: Json)
    ensures
        r@ == JsonView::Obj(seq![(k0@, v0@), (k1@, v1@), (k2@, v2@), (k3@, v3@), (k4@, v4@), (k5@, v5@), (k6@, v6@)]),
{
    let ghost g0 = v0@;
    let ghost g1 = v1@;
    let ghost g2 = v2@;
    let ghost g3 = v3@;
    let ghost g4 = v4@;
    let ghost g5 = v5@;
    let ghost g6 = v6@;
    let mut f: Vec<(String, Json)> = Vec::new();
    f.push(field(k0, v0));
    f.push(field(k1, v1));
    f.push(field(k2, v2));
    f.push(field(k3, v3));
    f.push(field(k4, v4));
    f.push(field(k5, v5));
    f.push(field(k6, v6));
    let ghost fv = f@.map_values(|p: (String, Json)| (p.0@, p.1@));
    assert(fv[0] == (k0@, g0));
    assert(fv[1] == (k1@, g1));
    assert(fv[2] == (k2@, g2));
    assert(fv[3] == (k3@, g3));
    assert(fv[4] == (k4@, g4));
    assert(fv[5] == (k5@, g5));
    assert(fv[6] == (k6@, g6));
    assert(fv =~= seq![(k0@, g0), (k1@, g1), (k2@, g2), (k3@, g3), (k4@, g4), (k5@, g5), (k6@, g6)]);
    jobj(f)
}

fn arr1(v0: Json) -> (r: Json)
    ensures
        r@ == JsonView::Arr(seq![v0@]),
{
    let ghost g0 = v0@;
    let mut items: Vec<Json> = Vec::new();
    items.push(v0);
    let ghost iv = items@.map_values(|j: Json| j@);
    assert(iv[0] == g0);
    assert(iv =~= seq![g0]);
    jarr(items)
}

fn arr0() -> (r: Json)
    ensures
        r@ == JsonView::Arr(Seq::empty()),
{
    let items: Vec<Json> = Vec::new();
    assert(items@.map_values(|j: Json| j@) =~= Seq::<JsonView>::empty());
    jarr(items)
}

pub open spec fn jv_str(s: Seq<char>) -> JsonView {
    JsonView::Str(s)
}

/// An OpenAI-style error body.
pub open spec fn error_body(message: Seq<char>, kind: Seq<char>) -> JsonView {
    JsonView::Obj(seq![(
        "error"@,
        JsonView::Obj(seq![
            ("message"@, jv_str(message)),
            ("type"@, jv_str(kind)),
            ("param"@, JsonView::Null),
            ("code"@, JsonView::Null),
        ]),
    )])
}

pub fn openai_error_body(message: &str, kind: &str) -> (r: Json)
    ensures
        r@ == error_body(message@, kind@),
{
    let i = obj4("message", jstr(message), "type", jstr(kind), "param", Json::Null, "code", Json::Null);
    let r = obj1("error", i);
    assert(r@ =~~= error_body(message@, kind@));
    r
}

/// The body for an unknown endpoint.
pub fn not_found_body(path: &str) -> (r: Json)
    ensures
        r@ == error_body("Unknown mock endpoint: "@ + path@, "not_found_error"@),
{
    let mut m = "Unknown mock endpoint: ".to_owned();
    push_str(&mut m, path);
    openai_error_body(m.as_str(), "not_found_error")
}

/// The body for a refused API key.
pub fn unauthorized_body() -> (r: Json)
    ensures
        r@ == error_body("Invalid API key for mock server."@, "invalid_request_error"@),
{
    openai_error_body("Invalid API key for mock server.", "invalid_request_error")
}

pub open spec fn health_body() -> JsonView {
    JsonView::Obj(seq![("status"@, jv_str("ok"@))])
}

pub fn health_response_body() -> (r: Json)
    ensures
        r@ == health_body(),
{
    let r = obj1("status", jstr("ok"));
    assert(r@ =~~= health_body());
    r
}

pub open spec fn model_info_body(name: Seq<char>, created: u64) -> JsonView {
    JsonView::Obj(seq![
        ("id"@, jv_str(name)),
        ("object"@, jv_str("model"@)),
        ("created"@, JsonView::UInt(created)),
        ("owned_by"@, jv_str("gaia-mock"@)),
    ])
}

pub fn model_info_response_body(name: &str, created: u64) -> (r: Json)
    ensures
        r@ == model_info_body(name@, created),
{
    let r = obj4("id", jstr(name), "object", jstr("model"), "created", Json::UInt(created), "owned_by", jstr("gaia-mock"));
    assert(r@ =~~= model_info_body(name@, created));
    r
}

pub open spec fn model_list_body(model_id: Seq<char>) -> JsonView {
    JsonView::Obj(seq![
        ("object"@, jv_str("list"@)),
        (
            "data"@,
            JsonView::Arr(seq![JsonView::Obj(seq![
                ("id"@, jv_str(model_id)),
                ("object"@, jv_str("model"@)),
                ("owned_by"@, jv_str("gaia-mock"@)),
            ])]),
        ),
    ])
}

pub fn model_list_response_body(model_id: &str) -> (r: Json)
    ensures
        r@ == model_list_body(model_id@),
{
    let entry = obj3("id", jstr(model_id), "object", jstr("model"), "owned_by", jstr("gaia-mock"));
    let r = obj2("object", jstr("list"), "data", arr1(entry));
    assert(r@ =~~= model_list_body(model_id@));
    r
}

/// An assistant message carrying `text`, as the Responses API lists it.
pub open spec fn output_message(message_id: Seq<char>, text: Seq<char>) -> JsonView {
    JsonView::Obj(seq![
        ("id"@, jv_str(message_id)),
        ("type"@, jv_str("message"@)),
        ("role"@, jv_str("assistant"@)),
        ("status"@, jv_str("completed"@)),
        (
            "content"@,
            JsonView::Arr(seq![JsonView::Obj(seq![
                ("type"@, jv_str("output_text"@)),
                ("text"@, jv_str(text)),
                ("annotations"@, JsonView::Arr(Seq::empty())),
            ])]),
        ),
    ])
}

fn output_message_json(message_id: &str, text: &str) -> (r: Json)
    ensures
        r@ == output_message(message_id@, text@),
{
    let content_item = obj3("type", jstr("output_text"), "text", jstr(text), "annotations", arr0());
    let r = obj5(
        "id", jstr(message_id),
        "type", jstr("message"),
        "role", jstr("assistant"),
        "status", jstr("completed"),
        "content", arr1(content_item),
    );
    assert(r@ =~~= output_message(message_id@, text@));
    r
}

/// A completed Responses API object.
pub open spec fn response_object(id: Seq<char>, created: u64, model: Seq<char>, message_id: Seq<char>, text: Seq<char>) -> JsonView {
    JsonView::Obj(seq![
        ("id"@, jv_str(id)),
        ("object"@, jv_str("response"@)),
        ("created_at"@, JsonView::UInt(created)),
        ("model"@, jv_str(model)),
        ("status"@, jv_str("completed"@)),
        ("output_text"@, jv_str(text)),
        ("output"@, JsonView::Arr(seq![output_message(message_id, text)])),
    ])
}

pub fn response_object_json(id: &str, created: u64, model: &str, message_id: &str, text: &str) -> (r: Json)
    ensures
        r@ == response_object(id@, created, model@, message_id@, text@),
{
    let msg = output_message_json(message_id, text);
    let r = obj7(
        "id", jstr(id),
        "object", jstr("response"),
        "created_at", Json::UInt(created),
        "model", jstr(model),
        "status", jstr("completed"),
        "output_text", jstr(text),
        "output", arr1(msg),
    );
    assert(r@ =~~= response_object(id@, created, model@, message_id@, text@));
    r
}

/// The text a stored response replays.
pub open spec fn stored_response_text() -> Seq<char> {
    "(mock) Stored response replay is simulated. Use POST /v1/responses for fresh output."@
}

/// The body for `GET /v1/responses/{id}`; the message id is `msg_`
/// followed by a fresh id.
pub fn stored_response_body(response_id: &str, created: u64, model_id: &str, fresh_id: &str) -> (r: Json)
    ensures
        r@ == response_object(response_id@, created, model_id@, "msg_"@ + fresh_id@, stored_response_text()),
{
    let mut message_id = "msg_".to_owned();
    push_str(&mut message_id, fresh_id);
    response_object_json(
        response_id,
        created,
        model_id,
        message_id.as_str(),
        "(mock) Stored response replay is simulated. Use POST /v1/responses for fresh output.",
    )
}


// ---------------------------------------------------------------------------
// Generation endpoints
// ---------------------------------------------------------------------------

/// The model a request names, else the served one.
pub open spec fn requested_model(payload: Json, default_model: Seq<char>) -> Seq<char> {
    match json_str(json_get(payload, "model"@)) {
        Some(m) => m,
        None => default_model,
    }
}

/// Whether a request asks for streaming.
pub open spec fn wants_stream(payload: Json) -> bool {
    match json_bool(json_get(payload, "stream"@)) {
        Some(b) => b,
        None => false,
    }
}

/// The text a chat request is answered about: the last user message.
pub open spec fn chat_input(payload: Json) -> Seq<char> {
    match spec_last_user_message(payload) {
        Some(t) => t,
        None => "Hello from Gaia mock mode."@,
    }
}

pub open spec fn chat_output(payload: Json) -> Seq<char> {
    "(mock) I received: "@ + chat_input(payload) + ". This is a simulated answer from Gaia."@
}

/// The prompt of a text completion request.
pub open spec fn completion_input(payload: Json) -> Seq<char> {
    match spec_prompt(payload) {
        Some(t) => t,
        None => "Hello from Gaia mock mode."@,
    }
}

pub open spec fn completion_output(payload: Json) -> Seq<char> {
    "(mock completion) Prompt received: "@ + completion_input(payload) + ". This is a simulated completion."@
}

/// The input of a Responses API request.
pub open spec fn responses_input_text(payload: Json) -> Seq<char> {
    match spec_responses_input(payload) {
        Some(t) => t,
        None => "Hello from Gaia mock responses mode."@,
    }
}

pub open spec fn responses_output(payload: Json) -> Seq<char> {
    "(mock response) I received: "@ + responses_input_text(payload) + ". This is a simulated response."@
}

/// What a generation request was answered with: the model, whether to
/// stream, the text read from the request and the generated text.
pub struct Exchange {
    pub model: String,
    pub stream: bool,
    pub input: String,
    pub output: String,
}

fn model_and_stream(payload: &Json, default_model: &str) -> (r: (String, bool))
    ensures
        r.0@ == requested_model(*payload, default_model@),
        r.1 == wants_stream(*payload),
{
    let model = match get_str(payload, "model") {
        Some(m) => m,
        None => default_model.to_owned(),
    };
    let stream = match get_bool(payload, "stream") {
        Some(b) => b,
        None => false,
    };
    (model, stream)
}

fn wrap(prefix: &str, middle: &str, suffix: &str) -> (r: String)
    ensures
        r@ == prefix@ + middle@ + suffix@,
{
    let mut r = prefix.to_owned();
    push_str(&mut r, middle);
    push_str(&mut r, suffix);
    r
}

/// The chat completion for a request: the last user message answered.
pub fn chat_exchange(payload: &Json, default_model: &str) -> (r: Exchange)
    ensures
        r.model@ == requested_model(*payload, default_model@),
        r.stream == wants_stream(*payload),
        r.input@ == chat_input(*payload),
        r.output@ == chat_output(*payload),
{
    let (model, stream) = model_and_stream(payload, default_model);
    let input = match extract_last_user_message(payload) {
        Some(t) => t,
        None => "Hello from Gaia mock mode.".to_owned(),
    };
    let output = wrap("(mock) I received: ", input.as_str(), ". This is a simulated answer from Gaia.");
    Exchange { model, stream, input, output }
}

/// The text completion for a request: the prompt echoed.
pub fn completion_exchange(payload: &Json, default_model: &str) -> (r: Exchange)
    ensures
        r.model@ == requested_model(*payload, default_model@),
        r.stream == wants_stream(*payload),
        r.input@ == completion_input(*payload),
        r.output@ == completion_output(*payload),
{
    let (model, stream) = model_and_stream(payload, default_model);
    let input = match extract_prompt(payload) {
        Some(t) => t,
        None => "Hello from Gaia mock mode.".to_owned(),
    };
    let output = wrap("(mock completion) Prompt received: ", input.as_str(), ". This is a simulated completion.");
    Exchange { model, stream, input, output }
}

/// The Responses API answer for a request.
pub fn responses_exchange(payload: &Json, default_model: &str) -> (r: Exchange)
    ensures
        r.model@ == requested_model(*payload, default_model@),
        r.stream == wants_stream(*payload),
        r.input@ == responses_input_text(*payload),
        r.output@ == responses_output(*payload),
{
    let (model, stream) = model_and_stream(payload, default_model);
    let input = match extract_responses_input(payload) {
        Some(t) => t,
        None => "Hello from Gaia mock responses mode.".to_owned(),
    };
    let output = wrap("(mock response) I received: ", input.as_str(), ". This is a simulated response.");
    Exchange { model, stream, input, output }
}

pub open spec fn usage_body(prompt_tokens: u64, completion_tokens: u64) -> JsonView {
    JsonView::Obj(seq![
        ("prompt_tokens"@, JsonView::UInt(prompt_tokens)),
        ("completion_tokens"@, JsonView::UInt(completion_tokens)),
        ("total_tokens"@, JsonView::UInt((prompt_tokens + completion_tokens) as u64)),
    ])
}

/// A whole chat completion.
pub open spec fn chat_completion_body(id: Seq<char>, created: u64, model: Seq<char>, content: Seq<char>, pt: u64, ct: u64) -> JsonView {
    JsonView::Obj(seq![
        ("id"@, jv_str(id)),
        ("object"@, jv_str("chat.completion"@)),
        ("created"@, JsonView::UInt(created)),
        ("model"@, jv_str(model)),
        (
            "choices"@,
            JsonView::Arr(seq![JsonView::Obj(seq![
                ("index"@, JsonView::UInt(0)),
                ("message"@, JsonView::Obj(seq![("role"@, jv_str("assistant"@)), ("content"@, jv_str(content))])),
                ("finish_reason"@, jv_str("stop"@)),
            ])]),
        ),
        ("usage"@, usage_body(pt, ct)),
    ])
}

fn usage_json(pt: u64, ct: u64) -> (r: Json)
    requires
        pt + ct <= u64::MAX,
    ensures
        r@ == usage_body(pt, ct),
{
    obj3("prompt_tokens", Json::UInt(pt), "completion_tokens", Json::UInt(ct), "total_tokens", Json::UInt(pt + ct))
}

/// The chat completion body; token counts are estimated from the texts.
pub fn chat_completion_json(id: &str, created: u64, exchange: &Exchange) -> (r: Json)
    requires
        token_estimate(exchange.input@) + token_estimate(exchange.output@) <= u64::MAX,
    ensures
        r@ == chat_completion_body(id@, created, exchange.model@, exchange.output@,
            token_estimate(exchange.input@) as u64, token_estimate(exchange.output@) as u64),
{
    let pt = approximate_tokens(exchange.input.as_str());
    let ct = approximate_tokens(exchange.output.as_str());
    let message = obj2("role", jstr("assistant"), "content", jstr(exchange.output.as_str()));
    let choice = obj3("index", Json::UInt(0), "message", message, "finish_reason", jstr("stop"));
    let r = obj6(
        "id", jstr(id),
        "object", jstr("chat.completion"),
        "created", Json::UInt(created),
        "model", jstr(exchange.model.as_str()),
        "choices", arr1(choice),
        "usage", usage_json(pt, ct),
    );
    assert(r@ =~~= chat_completion_body(id@, created, exchange.model@, exchange.output@, pt, ct));
    r
}

/// One chat streaming chunk with the given delta and finish reason.
pub open spec fn chat_chunk(id: Seq<char>, created: u64, model: Seq<char>, delta: JsonView, finish: JsonView) -> JsonView {
    JsonView::Obj(seq![
        ("id"@, jv_str(id)),
        ("object"@, jv_str("chat.completion.chunk"@)),
        ("created"@, JsonView::UInt(created)),
        ("model"@, jv_str(model)),
        (
            "choices"@,
            JsonView::Arr(seq![JsonView::Obj(seq![
                ("index"@, JsonView::UInt(0)),
                ("delta"@, delta),
                ("finish_reason"@, finish),
            ])]),
        ),
    ])
}

fn chat_chunk_json(id: &str, created: u64, model: &str, delta: Json, finish: Json) -> (r: Json)
    ensures
        r@ == chat_chunk(id@, created, model@, delta@, finish@),
{
    let ghost (dv, fv) = (delta@, finish@);
    let choice = obj3("index", Json::UInt(0), "delta", delta, "finish_reason", finish);
    let r = obj5(
        "id", jstr(id),
        "object", jstr("chat.completion.chunk"),
        "created", Json::UInt(created),
        "model", jstr(model),
        "choices", arr1(choice),
    );
    assert(r@ =~~= chat_chunk(id@, created, model@, dv, fv));
    r
}

pub open spec fn json_views_of(v: Seq<Json>) -> Seq<JsonView> {
    v.map_values(|j: Json| j@)
}

/// The streamed chat completion: the role, each chunk of the text, then
/// the stop.
pub open spec fn chat_stream(id: Seq<char>, created: u64, model: Seq<char>, text: Seq<char>) -> Seq<JsonView> {
    seq![chat_chunk(id, created, model, JsonView::Obj(seq![("role"@, jv_str("assistant"@))]), JsonView::Null)]
        + stream_chunks(text).map_values(|c: Seq<char>| chat_chunk(id, created, model, JsonView::Obj(seq![("content"@, jv_str(c))]), JsonView::Null))
        + seq![chat_chunk(id, created, model, JsonView::Obj(Seq::empty()), jv_str("stop"@))]
}

fn empty_obj() -> (r: Json)
    ensures
        r@ == JsonView::Obj(Seq::empty()),
{
    let f: Vec<(String, Json)> = Vec::new();
    assert(f@.map_values(|p: (String, Json)| (p.0@, p.1@)) =~= Seq::<(Seq<char>, JsonView)>::empty());
    jobj(f)
}

pub fn chat_stream_events(id: &str, created: u64, model: &str, text: &str) -> (r: Vec<Json>)
    ensures
        json_views_of(r@) == chat_stream(id@, created, model@, text@),
{
    let mut events: Vec<Json> = Vec::new();
    events.push(chat_chunk_json(id, created, model, obj1("role", jstr("assistant")), Json::Null));
    let chunks = split_for_streaming(text);
    let ghost cv = views(chunks@);
    let ghost f = |c: Seq<char>| chat_chunk(id@, created, model@, JsonView::Obj(seq![("content"@, jv_str(c))]), JsonView::Null);
    let ghost head = json_views_of(events@);
    let mut i: usize = 0;
    while i < chunks.len()
        invariant
            i <= chunks.len(),
            cv == views(chunks@),
            f == (|c: Seq<char>| chat_chunk(id@, created, model@, JsonView::Obj(seq![("content"@, jv_str(c))]), JsonView::Null)),
            json_views_of(events@) == head + cv.take(i as int).map_values(f),
        decreases chunks.len() - i,
    {
        let ghost before = json_views_of(events@);
        let e = chat_chunk_json(id, created, model, obj1("content", jstr(chunks[i].as_str())), Json::Null);
        events.push(e);
        i = i + 1;
        proof {
            assert(cv.take(i as int) =~= cv.take(i - 1).push(cv[i - 1]));
            assert(json_views_of(events@) =~= before.push(f(cv[i - 1])));
            assert(cv.take(i as int).map_values(f) =~= cv.take(i - 1).map_values(f).push(f(cv[i - 1])));
        }
    }
    let ghost mid = json_views_of(events@);
    events.push(chat_chunk_json(id, created, model, empty_obj(), jstr("stop")));
    proof {
        assert(cv.take(chunks.len() as int) =~= cv);
        assert(cv == stream_chunks(text@));
        let first = chat_chunk(id@, created, model@, JsonView::Obj(seq![("role"@, jv_str("assistant"@))]), JsonView::Null);
        let last = chat_chunk(id@, created, model@, JsonView::Obj(Seq::empty()), jv_str("stop"@));
        assert(head =~= seq![first]);
        assert(mid == seq![first] + cv.map_values(f));
        assert(json_views_of(events@) =~= mid.push(last));
        assert(mid.push(last) =~= seq![first] + cv.map_values(f) + seq![last]);
    }
    events
}


/// One text-completion choice.
pub open spec fn completion_choice(text: Seq<char>, finish: JsonView) -> JsonView {
    JsonView::Obj(seq![
        ("text"@, jv_str(text)),
        ("index"@, JsonView::UInt(0)),
        ("logprobs"@, JsonView::Null),
        ("finish_reason"@, finish),
    ])
}

fn completion_choice_json(text: &str, finish: Json) -> (r: Json)
    ensures
        r@ == completion_choice(text@, finish@),
{
    let ghost fv = finish@;
    let r = obj4("text", jstr(text), "index", Json::UInt(0), "logprobs", Json::Null, "finish_reason", finish);
    assert(r@ =~~= completion_choice(text@, fv));
    r
}

/// A whole text completion.
pub open spec fn completion_body(id: Seq<char>, created: u64, model: Seq<char>, text: Seq<char>, pt: u64, ct: u64) -> JsonView {
    JsonView::Obj(seq![
        ("id"@, jv_str(id)),
        ("object"@, jv_str("text_completion"@)),
        ("created"@, JsonView::UInt(created)),
        ("model"@, jv_str(model)),
        ("choices"@, JsonView::Arr(seq![completion_choice(text, jv_str("stop"@))])),
        ("usage"@, usage_body(pt, ct)),
    ])
}

pub fn completion_json(id: &str, created: u64, exchange: &Exchange) -> (r: Json)
    requires
        token_estimate(exchange.input@) + token_estimate(exchange.output@) <= u64::MAX,
    ensures
        r@ == completion_body(id@, created, exchange.model@, exchange.output@,
            token_estimate(exchange.input@) as u64, token_estimate(exchange.output@) as u64),
{
    let pt = approximate_tokens(exchange.input.as_str());
    let ct = approximate_tokens(exchange.output.as_str());
    let choice = completion_choice_json(exchange.output.as_str(), jstr("stop"));
    let r = obj6(
        "id", jstr(id),
        "object", jstr("text_completion"),
        "created", Json::UInt(created),
        "model", jstr(exchange.model.as_str()),
        "choices", arr1(choice),
        "usage", usage_json(pt, ct),
    );
    assert(r@ =~~= completion_body(id@, created, exchange.model@, exchange.output@, pt, ct));
    r
}

/// One streamed text-completion event.
pub open spec fn completion_event(id: Seq<char>, created: u64, model: Seq<char>, text: Seq<char>, finish: JsonView) -> JsonView {
    JsonView::Obj(seq![
        ("id"@, jv_str(id)),
        ("object"@, jv_str("text_completion"@)),
        ("created"@, JsonView::UInt(created)),
        ("model"@, jv_str(model)),
        ("choices"@, JsonView::Arr(seq![completion_choice(text, finish)])),
    ])
}

fn completion_event_json(id: &str, created: u64, model: &str, text: &str, finish: Json) -> (r: Json)
    ensures
        r@ == completion_event(id@, created, model@, text@, finish@),
{
    let ghost fv = finish@;
    let choice = completion_choice_json(text, finish);
    let r = obj5(
        "id", jstr(id),
        "object", jstr("text_completion"),
        "created", Json::UInt(created),
        "model", jstr(model),
        "choices", arr1(choice),
    );
    assert(r@ =~~= completion_event(id@, created, model@, text@, fv));
    r
}

/// The streamed text completion: each chunk, then an empty stop.
pub open spec fn completion_stream(id: Seq<char>, created: u64, model: Seq<char>, text: Seq<char>) -> Seq<JsonView> {
    stream_chunks(text).map_values(|c: Seq<char>| completion_event(id, created, model, c, JsonView::Null))
        + seq![completion_event(id, created, model, Seq::empty(), jv_str("stop"@))]
}

pub fn completion_stream_events(id: &str, created: u64, model: &str, text: &str) -> (r: Vec<Json>)
    ensures
        json_views_of(r@) == completion_stream(id@, created, model@, text@),
{
    let mut events: Vec<Json> = Vec::new();
    let chunks = split_for_streaming(text);
    let ghost cv = views(chunks@);
    let ghost f = |c: Seq<char>| completion_event(id@, created, model@, c, JsonView::Null);
    let mut i: usize = 0;
    assert(json_views_of(events@) =~= cv.take(0).map_values(f));
    while i < chunks.len()
        invariant
            i <= chunks.len(),
            cv == views(chunks@),
            f == (|c: Seq<char>| completion_event(id@, created, model@, c, JsonView::Null)),
            json_views_of(events@) == cv.take(i as int).map_values(f),
        decreases chunks.len() - i,
    {
        let ghost before = json_views_of(events@);
        let e = completion_event_json(id, created, model, chunks[i].as_str(), Json::Null);
        events.push(e);
        i = i + 1;
        proof {
            assert(cv.take(i as int) =~= cv.take(i - 1).push(cv[i - 1]));
            assert(json_views_of(events@) =~= before.push(f(cv[i - 1])));
            assert(cv.take(i as int).map_values(f) =~= cv.take(i - 1).map_values(f).push(f(cv[i - 1])));
        }
    }
    let ghost mid = json_views_of(events@);
    proof {
        reveal_strlit("");
        assert(""@ =~= Seq::<char>::empty());
    }
    events.push(completion_event_json(id, created, model, "", jstr("stop")));
    proof {
        assert(cv.take(chunks.len() as int) =~= cv);
        let last = completion_event(id@, created, model@, Seq::empty(), jv_str("stop"@));
        assert(json_views_of(events@) =~= mid.push(last));
        assert(mid.push(last) =~= cv.map_values(f) + seq![last]);
    }
    events
}

/// The Responses API object as the completion event carries it.
pub open spec fn completed_response(id: Seq<char>, created: u64, model: Seq<char>, message_id: Seq<char>, text: Seq<char>) -> JsonView {
    JsonView::Obj(seq![
        ("id"@, jv_str(id)),
        ("object"@, jv_str("response"@)),
        ("created_at"@, JsonView::UInt(created)),
        ("model"@, jv_str(model)),
        ("status"@, jv_str("completed"@)),
        ("output"@, JsonView::Arr(seq![output_message(message_id, text)])),
    ])
}

/// The streamed Responses API answer: created, one delta per chunk
/// (numbered from 1), then completed.
pub open spec fn responses_stream(id: Seq<char>, message_id: Seq<char>, created: u64, model: Seq<char>, text: Seq<char>) -> Seq<JsonView> {
    seq![JsonView::Obj(seq![
        ("type"@, jv_str("response.created"@)),
        ("sequence_number"@, JsonView::UInt(0)),
        (
            "response"@,
            JsonView::Obj(seq![
                ("id"@, jv_str(id)),
                ("object"@, jv_str("response"@)),
                ("created_at"@, JsonView::UInt(created)),
                ("model"@, jv_str(model)),
                ("status"@, jv_str("in_progress"@)),
                ("output"@, JsonView::Arr(Seq::empty())),
            ]),
        ),
    ])] + Seq::new(stream_chunks(text).len(), |i: int| delta_event(message_id, (i + 1) as u64, stream_chunks(text)[i]))
        + seq![JsonView::Obj(seq![
        ("type"@, jv_str("response.completed"@)),
        ("sequence_number"@, JsonView::UInt((stream_chunks(text).len() + 1) as u64)),
        ("response"@, completed_response(id, created, model, message_id, text)),
    ])]
}

pub open spec fn delta_event(message_id: Seq<char>, seq_no: u64, chunk: Seq<char>) -> JsonView {
    JsonView::Obj(seq![
        ("type"@, jv_str("response.output_text.delta"@)),
        ("sequence_number"@, JsonView::UInt(seq_no)),
        ("item_id"@, jv_str(message_id)),
        ("output_index"@, JsonView::UInt(0)),
        ("content_index"@, JsonView::UInt(0)),
        ("delta"@, jv_str(chunk)),
    ])
}

pub fn responses_stream_events(id: &str, message_id: &str, created: u64, model: &str, text: &str) -> (r: Vec<Json>)
    ensures
        json_views_of(r@) == responses_stream(id@, message_id@, created, model@, text@),
{
    let mut events: Vec<Json> = Vec::new();
    let resp = obj6(
        "id", jstr(id),
        "object", jstr("response"),
        "created_at", Json::UInt(created),
        "model", jstr(model),
        "status", jstr("in_progress"),
        "output", arr0(),
    );
    events.push(obj3("type", jstr("response.created"), "sequence_number", Json::UInt(0), "response", resp));
    let ghost head = json_views_of(events@);
    let chunks = split_for_streaming(text);
    let ghost cv = views(chunks@);
    let mut i: usize = 0;
    while i < chunks.len()
        invariant
            i <= chunks.len(),
            cv == views(chunks@),
            events@.len() == i + 1,
            json_views_of(events@) == head + Seq::new(i as nat, |k: int| delta_event(message_id@, (k + 1) as u64, cv[k])),
        decreases chunks.len() - i,
    {
        let ghost before = json_views_of(events@);
        let e = obj6(
            "type", jstr("response.output_text.delta"),
            "sequence_number", Json::UInt((i + 1) as u64),
            "item_id", jstr(message_id),
            "output_index", Json::UInt(0),
            "content_index", Json::UInt(0),
            "delta", jstr(chunks[i].as_str()),
        );
        assert(e@ =~~= delta_event(message_id@, (i + 1) as u64, cv[i as int]));
        events.push(e);
        i = i + 1;
        proof {
            let f = |k: int| delta_event(message_id@, (k + 1) as u64, cv[k]);
            assert(json_views_of(events@) =~= before.push(e@));
            assert(Seq::new(i as nat, f) =~= Seq::new((i - 1) as nat, f).push(f(i - 1)));
            assert(json_views_of(events@) =~= head + Seq::new(i as nat, |k: int| delta_event(message_id@, (k + 1) as u64, cv[k])));
        }
    }
    let ghost mid = json_views_of(events@);
    let completed_seq = events.len();
    let msg = output_message_json(message_id, text);
    let done = obj6(
        "id", jstr(id),
        "object", jstr("response"),
        "created_at", Json::UInt(created),
        "model", jstr(model),
        "status", jstr("completed"),
        "output", arr1(msg),
    );
    assert(done@ =~~= completed_response(id@, created, model@, message_id@, text@));
    let last = obj3("type", jstr("response.completed"), "sequence_number", Json::UInt(completed_seq as u64), "response", done);
    events.push(last);
    proof {
        assert(cv == stream_chunks(text@));
        let f = |k: int| delta_event(message_id@, (k + 1) as u64, cv[k]);
        let g = |k: int| delta_event(message_id@, (k + 1) as u64, stream_chunks(text@)[k]);
        assert(Seq::new(cv.len(), f) =~= Seq::new(stream_chunks(text@).len(), g));
        let created_event = JsonView::Obj(seq![
            ("type"@, jv_str("response.created"@)),
            ("sequence_number"@, JsonView::UInt(0)),
            (
                "response"@,
                JsonView::Obj(seq![
                    ("id"@, jv_str(id@)),
                    ("object"@, jv_str("response"@)),
                    ("created_at"@, JsonView::UInt(created)),
                    ("model"@, jv_str(model@)),
                    ("status"@, jv_str("in_progress"@)),
                    ("output"@, JsonView::Arr(Seq::empty())),
                ]),
            ),
        ]);
        assert(head =~~= seq![created_event]);
        let last_event = JsonView::Obj(seq![
            ("type"@, jv_str("response.completed"@)),
            ("sequence_number"@, JsonView::UInt((stream_chunks(text@).len() + 1) as u64)),
            ("response"@, completed_response(id@, created, model@, message_id@, text@)),
        ]);
        assert(last@ =~~= last_event);
        assert(json_views_of(events@) =~= mid.push(last@));
        assert(mid.push(last@) =~~= seq![created_event] + Seq::new(stream_chunks(text@).len(), g) + seq![last_event]);
    }
    events
}

/// The embeddings request, once read: the model, the non-blank inputs (one
/// empty input when there are none) and their token count.
pub struct EmbeddingsRequest {
    pub model: String,
    pub inputs: Vec<String>,
    pub token_count: u64,
}

/// The non-blank inputs.
pub open spec fn nonblank(s: Seq<Seq<char>>) -> Seq<Seq<char>> {
    s.filter(|x: Seq<char>| trim(x).len() > 0)
}

pub open spec fn token_total(s: Seq<Seq<char>>) -> nat
    decreases s.len(),
{
    if s.len() == 0 { 0 } else { token_total(s.drop_last()) + token_estimate(s.last()) }
}

/// `r` is the embeddings request read from `payload`: the model, the
/// non-blank inputs (one empty input when there are none), and their token
/// count when it fits in 64 bits.
pub open spec fn embeddings_read(payload: Json, default_model: Seq<char>, r: EmbeddingsRequest) -> bool {
    &&& r.model@ == requested_model(payload, default_model)
    &&& views(r.inputs@) == if nonblank(spec_embedding_inputs(payload)).len() == 0 {
        seq![Seq::<char>::empty()]
    } else {
        nonblank(spec_embedding_inputs(payload))
    }
    &&& token_total(views(r.inputs@)) <= u64::MAX ==> r.token_count == token_total(views(r.inputs@))
}

pub fn embeddings_request(payload: &Json, default_model: &str) -> (r: EmbeddingsRequest)
    ensures
        embeddings_read(*payload, default_model@, r),
{
    let (model, _) = model_and_stream(payload, default_model);
    let all = extract_embedding_inputs(payload);
    let ghost av = views(all@);
    let ghost p = |x: Seq<char>| trim(x).len() > 0;
    let mut inputs: Vec<String> = Vec::new();
    let mut i: usize = 0;
    proof {
        reveal(Seq::filter);
        assert(av.take(0) =~= Seq::<Seq<char>>::empty());
    }
    while i < all.len()
        invariant
            i <= all.len(),
            av == views(all@),
            p == (|x: Seq<char>| trim(x).len() > 0),
            views(inputs@) == av.take(i as int).filter(p),
        decreases all.len() - i,
    {
        proof {
            assert(av.take(i + 1) =~= av.take(i as int).push(av[i as int]));
            crate::recommendation::lemma_filter_push(av.take(i as int), av[i as int], p);
        }
        if !trim_str(all[i].as_str()).as_str().is_empty() {
            let ghost before = views(inputs@);
            inputs.push(all[i].clone());
            assert(views(inputs@) =~= before.push(av[i as int]));
        }
        i = i + 1;
    }
    assert(av.take(all.len() as int) =~= av);
    if inputs.len() == 0 {
        inputs.push(String::new());
        assert(views(inputs@) =~= seq![Seq::<char>::empty()]);
    }
    let ghost iv = views(inputs@);
    let mut total: u64 = 0;
    let mut k: usize = 0;
    assert(iv.take(0) =~= Seq::<Seq<char>>::empty());
    while k < inputs.len()
        invariant
            k <= inputs.len(),
            iv == views(inputs@),
            token_total(iv.take(k as int)) <= u64::MAX ==> total == token_total(iv.take(k as int)),
            total <= token_total(iv.take(k as int)),
        decreases inputs.len() - k,
    {
        proof {
            assert(iv.take(k + 1).drop_last() =~= iv.take(k as int));
            assert(iv.take(k + 1).last() == iv[k as int]);
        }
        let n = approximate_tokens(inputs[k].as_str());
        total = total.saturating_add(n);
        k = k + 1;
    }
    assert(iv.take(inputs.len() as int) =~= iv);
    EmbeddingsRequest { model, inputs, token_count: total }
}

/// The transcription text for an audio upload of `n` bytes.
pub open spec fn transcript(n: nat) -> Seq<char> {
    if n == 0 {
        "(mock transcription) empty audio payload."@
    } else {
        "(mock transcription) received "@ + decimal(n) + " bytes of audio data."@
    }
}

pub fn transcription_body(audio_len: usize) -> (r: Json)
    ensures
        r@ == JsonView::Obj(seq![("text"@, jv_str(transcript(audio_len as nat)))]),
{
    let text = if audio_len == 0 {
        "(mock transcription) empty audio payload.".to_owned()
    } else {
        wrap("(mock transcription) received ", u64_to_string(audio_len as u64).as_str(), " bytes of audio data.")
    };
    obj1("text", Json::Str(text))
}

/// The text a speech request reads out.
pub open spec fn speech_text(payload: Json) -> Seq<char> {
    match json_get(payload, "input"@) {
        Some(v) => match json_text(v) {
            Some(t) => t,
            None => "Hello from Gaia mock speech mode."@,
        },
        None => "Hello from Gaia mock speech mode."@,
    }
}

/// The mock audio for a speech request: `MOCK_MP3:` and the input text.
pub fn speech_audio(payload: &Json) -> (r: String)
    ensures
        r@ == "MOCK_MP3:"@ + speech_text(*payload),
{
    let text = match get(payload, "input") {
        Some(v) => match extract_text(v) {
            Some(t) => t,
            None => "Hello from Gaia mock speech mode.".to_owned(),
        },
        None => "Hello from Gaia mock speech mode.".to_owned(),
    };
    let mut r = "MOCK_MP3:".to_owned();
    push_str(&mut r, text.as_str());
    r
}

// ---------------------------------------------------------------------------
// Replies
// ---------------------------------------------------------------------------

/// What the server sends back for a request.
pub enum MockReply {
    /// `204` with an empty body (a CORS preflight).
    NoContent,
    /// A JSON body with its status.
    Json { status: u16, body: Json },
    /// A `200` stream of server-sent events, one per value.
    Events(Vec<Json>),
    /// A `200` embeddings answer; the caller draws the vectors.
    Embeddings(EmbeddingsRequest),
    /// `200` mock audio (`audio/mpeg`).
    Audio(String),
}

/// What a reply needs of the request body.
#[derive(Debug, Clone, Copy, PartialEq, Eq, Structural)]
pub enum BodyUse {
    Ignored,
    /// Parsed as JSON (an empty or unreadable body reads as `{}`).
    Payload,
    /// Only its length in bytes.
    Length,
}

pub open spec fn body_use_of(route: MockRouteView) -> BodyUse {
    match route {
        MockRouteView::ChatCompletions => BodyUse::Payload,
        MockRouteView::Completions => BodyUse::Payload,
        MockRouteView::Responses => BodyUse::Payload,
        MockRouteView::Embeddings => BodyUse::Payload,
        MockRouteView::AudioSpeech => BodyUse::Payload,
        MockRouteView::AudioTranscriptions => BodyUse::Length,
        _ => BodyUse::Ignored,
    }
}

pub fn body_use(route: &MockRoute) -> (r: BodyUse)
    ensures
        r == body_use_of(route@),
{
    match route {
        MockRoute::ChatCompletions => BodyUse::Payload,
        MockRoute::Completions => BodyUse::Payload,
        MockRoute::Responses => BodyUse::Payload,
        MockRoute::Embeddings => BodyUse::Payload,
        MockRoute::AudioSpeech => BodyUse::Payload,
        MockRoute::AudioTranscriptions => BodyUse::Length,
        _ => BodyUse::Ignored,
    }
}

/// The prefixes of the fresh ids a reply draws, in the order it draws them.
pub open spec fn id_prefixes_of(route: MockRouteView) -> Seq<Seq<char>> {
    match route {
        MockRouteView::StoredResponse(_) => seq!["response"@],
        MockRouteView::ChatCompletions => seq!["chatcmpl"@],
        MockRouteView::Completions => seq!["cmpl"@],
        MockRouteView::Responses => seq!["resp"@, "msg"@],
        _ => Seq::empty(),
    }
}

pub fn id_prefixes(route: &MockRoute) -> (r: Vec<&'static str>)
    ensures
        r@.map_values(|p: &'static str| p@) == id_prefixes_of(route@),
{
    let mut r: Vec<&'static str> = Vec::new();
    match route {
        MockRoute::StoredResponse(_) => r.push("response"),
        MockRoute::ChatCompletions => r.push("chatcmpl"),
        MockRoute::Completions => r.push("cmpl"),
        MockRoute::Responses => {
            r.push("resp");
            r.push("msg");
        },
        _ => {},
    }
    assert(r@.map_values(|p: &'static str| p@) =~= id_prefixes_of(route@));
    r
}

/// Whether the usage counts of a whole (not streamed) completion fit in
/// 64 bits.
pub open spec fn reply_counts_fit(route: MockRouteView, payload: Json) -> bool {
    match route {
        MockRouteView::ChatCompletions => wants_stream(payload)
            || token_estimate(chat_input(payload)) + token_estimate(chat_output(payload)) <= u64::MAX,
        MockRouteView::Completions => wants_stream(payload)
            || token_estimate(completion_input(payload)) + token_estimate(completion_output(payload)) <= u64::MAX,
        _ => true,
    }
}

pub open spec fn json_reply(r: MockReply, status: u16, body: JsonView) -> bool {
    r matches MockReply::Json { status: s, body: b } && s == status && b@ == body
}

pub open spec fn events_reply(r: MockReply, events: Seq<JsonView>) -> bool {
    r matches MockReply::Events(e) && json_views_of(e@) == events
}

/// The reply to a request on `route`, with its payload (or body length),
/// the served model, the time and the fresh ids (`id_prefixes_of`).
pub open spec fn reply_matches(
    route: MockRouteView,
    payload: Json,
    body_len: nat,
    model_id: Seq<char>,
    created: u64,
    ids: Seq<Seq<char>>,
    r: MockReply,
) -> bool {
    match route {
        MockRouteView::Preflight => r is NoContent,
        MockRouteView::Unauthorized => json_reply(r, 401, error_body("Invalid API key for mock server."@, "invalid_request_error"@)),
        MockRouteView::ModelInfo(name) => json_reply(r, 200, model_info_body(name, created)),
        MockRouteView::StoredResponse(id) => json_reply(
            r,
            200,
            response_object(id, created, model_id, "msg_"@ + ids[0], stored_response_text()),
        ),
        MockRouteView::Health => json_reply(r, 200, health_body()),
        MockRouteView::ModelList => json_reply(r, 200, model_list_body(model_id)),
        MockRouteView::ChatCompletions => {
            let model = requested_model(payload, model_id);
            if wants_stream(payload) {
                events_reply(r, chat_stream(ids[0], created, model, chat_output(payload)))
            } else {
                json_reply(r, 200, chat_completion_body(ids[0], created, model, chat_output(payload),
                    token_estimate(chat_input(payload)) as u64, token_estimate(chat_output(payload)) as u64))
            }
        },
        MockRouteView::Completions => {
            let model = requested_model(payload, model_id);
            if wants_stream(payload) {
                events_reply(r, completion_stream(ids[0], created, model, completion_output(payload)))
            } else {
                json_reply(r, 200, completion_body(ids[0], created, model, completion_output(payload),
                    token_estimate(completion_input(payload)) as u64, token_estimate(completion_output(payload)) as u64))
            }
        },
        MockRouteView::Responses => {
            let model = requested_model(payload, model_id);
            if wants_stream(payload) {
                events_reply(r, responses_stream(ids[0], ids[1], created, model, responses_output(payload)))
            } else {
                json_reply(r, 200, response_object(ids[0], created, model, ids[1], responses_output(payload)))
            }
        },
        MockRouteView::Embeddings => r matches MockReply::Embeddings(req) && embeddings_read(payload, model_id, req),
        MockRouteView::AudioTranscriptions => json_reply(r, 200, JsonView::Obj(seq![("text"@, jv_str(transcript(body_len)))])),
        MockRouteView::AudioSpeech => r matches MockReply::Audio(a) && a@ == "MOCK_MP3:"@ + speech_text(payload),
        MockRouteView::NotFound(path) => json_reply(r, 404, error_body("Unknown mock endpoint: "@ + path, "not_found_error"@)),
    }
}

/// The reply to a routed request. `ids` are fresh ids drawn with the
/// prefixes `id_prefixes` gives; `payload` is the request's JSON body and
/// `body_len` its length, as `body_use` asks. `None` when the usage counts
/// of a whole completion would not fit in 64 bits.
pub fn reply(
    route: &MockRoute,
    payload: &Json,
    body_len: usize,
    model_id: &str,
    created: u64,
    ids: &Vec<String>,
) -> (r: Option<MockReply>)
    requires
        ids@.len() == id_prefixes_of(route@).len(),
    ensures
        r is None <==> !reply_counts_fit(route@, *payload),
        r matches Some(x) ==> reply_matches(route@, *payload, body_len as nat, model_id@, created, views(ids@), x),
{
    let r = match route {
        MockRoute::Preflight => MockReply::NoContent,
        MockRoute::Unauthorized => MockReply::Json { status: 401, body: unauthorized_body() },
        MockRoute::ModelInfo(name) => MockReply::Json { status: 200, body: model_info_response_body(name.as_str(), created) },
        MockRoute::StoredResponse(id) => MockReply::Json {
            status: 200,
            body: stored_response_body(id.as_str(), created, model_id, ids[0].as_str()),
        },
        MockRoute::Health => MockReply::Json { status: 200, body: health_response_body() },
        MockRoute::ModelList => MockReply::Json { status: 200, body: model_list_response_body(model_id) },
        MockRoute::ChatCompletions => {
            let exchange = chat_exchange(payload, model_id);
            if exchange.stream {
                MockReply::Events(chat_stream_events(ids[0].as_str(), created, exchange.model.as_str(), exchange.output.as_str()))
            } else {
                let pt = approximate_tokens(exchange.input.as_str());
                let ct = approximate_tokens(exchange.output.as_str());
                if pt > u64::MAX - ct {
                    return None;
                }
                MockReply::Json { status: 200, body: chat_completion_json(ids[0].as_str(), created, &exchange) }
            }
        },
        MockRoute::Completions => {
            let exchange = completion_exchange(payload, model_id);
            if exchange.stream {
                MockReply::Events(completion_stream_events(ids[0].as_str(), created, exchange.model.as_str(), exchange.output.as_str()))
            } else {
                let pt = approximate_tokens(exchange.input.as_str());
                let ct = approximate_tokens(exchange.output.as_str());
                if pt > u64::MAX - ct {
                    return None;
                }
                MockReply::Json { status: 200, body: completion_json(ids[0].as_str(), created, &exchange) }
            }
        },
        MockRoute::Responses => {
            let exchange = responses_exchange(payload, model_id);
            if exchange.stream {
                MockReply::Events(responses_stream_events(
                    ids[0].as_str(),
                    ids[1].as_str(),
                    created,
                    exchange.model.as_str(),
                    exchange.output.as_str(),
                ))
            } else {
                MockReply::Json {
                    status: 200,
                    body: response_object_json(ids[0].as_str(), created, exchange.model.as_str(), ids[1].as_str(), exchange.output.as_str()),
                }
            }
        },
        MockRoute::Embeddings => MockReply::Embeddings(embeddings_request(payload, model_id)),
        MockRoute::AudioTranscriptions => MockReply::Json { status: 200, body: transcription_body(body_len) },
        MockRoute::AudioSpeech => MockReply::Audio(speech_audio(payload)),
        MockRoute::NotFound(path) => MockReply::Json { status: 404, body: not_found_body(path.as_str()) },
    };
    Some(r)
}

/// A request other than a preflight that lacks the key is answered `401`
/// with the invalid-key error, whatever its path and body.
pub proof fn lemma_wrong_key_is_answered_401(
    method: HttpMethod,
    url: Seq<char>,
    headers: Seq<(Seq<char>, Seq<char>)>,
    api_key: Seq<char>,
    payload: Json,
    body_len: nat,
    model_id: Seq<char>,
    created: u64,
    ids: Seq<Seq<char>>,
    r: MockReply,
)
    requires
        method != HttpMethod::Options,
        trim(api_key).len() > 0,
        !bearer_matches(headers, api_key),
        reply_matches(spec_route(method, url_path(url), authorized(api_key, headers)), payload, body_len, model_id, created, ids, r),
    ensures
        json_reply(r, 401, error_body("Invalid API key for mock server."@, "invalid_request_error"@)),
{
    lemma_wrong_key_is_refused(method, url, headers, api_key);
}

} // verus!
