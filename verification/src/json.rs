use vstd::prelude::*;

verus! {

/// A JSON document as the provider carries it between the session backend and
/// the host: payloads of tool calls, tool results, metadata and request extras.
///
/// Numbers are kept as their JSON text, so that no floating point value is
/// ever handled here.
#[derive(Debug)]
pub enum JsonValue {
    Null,
    Bool(bool),
    Number(String),
    Str(String),
    Array(Vec<JsonValue>),
    Object(Vec<(String, JsonValue)>),
}

/// Mathematical model of a JSON document: an object is the sequence of its
/// entries, in order.
pub enum Json {
    Null,
    Bool(bool),
    Number(Seq<char>),
    Str(Seq<char>),
    Array(Seq<Json>),
    Object(Seq<(Seq<char>, Json)>),
}

pub open spec fn model_of(v: JsonValue) -> Json
    decreases v, 1int,
{
    match v {
        JsonValue::Null => Json::Null,
        JsonValue::Bool(b) => Json::Bool(b),
        JsonValue::Number(n) => Json::Number(n@),
        JsonValue::Str(s) => Json::Str(s@),
        JsonValue::Array(items) => Json::Array(models_of(items@)),
        JsonValue::Object(entries) => Json::Object(entry_models_of(entries@)),
    }
}

pub open spec fn models_of(s: Seq<JsonValue>) -> Seq<Json>
    decreases s, 0int,
{
    if s.len() == 0 {
        Seq::empty()
    } else {
        models_of(s.drop_last()).push(model_of(s.last()))
    }
}

pub open spec fn entry_models_of(s: Seq<(String, JsonValue)>) -> Seq<(Seq<char>, Json)>
    decreases s, 0int,
{
    if s.len() == 0 {
        Seq::empty()
    } else {
        entry_models_of(s.drop_last()).push((s.last().0@, model_of(s.last().1)))
    }
}

impl View for JsonValue {
    type V = Json;

    open spec fn view(&self) -> Json {
        model_of(*self)
    }
}

/// The model of an optional document.
pub open spec fn opt_model(o: Option<JsonValue>) -> Option<Json> {
    match o {
        Some(v) => Some(v@),
        None => None,
    }
}

/// The string inside a JSON string, if the document is one.
pub open spec fn str_of(v: Json) -> Option<Seq<char>> {
    match v {
        Json::Str(s) => Some(s),
        _ => None,
    }
}

/// The value of the first entry of an object that carries `key`.
pub open spec fn obj_get(entries: Seq<(Seq<char>, Json)>, key: Seq<char>) -> Option<Json>
    decreases entries.len(),
{
    if entries.len() == 0 {
        None
    } else if entries[0].0 == key {
        Some(entries[0].1)
    } else {
        obj_get(entries.drop_first(), key)
    }
}

/// The value under `key` in a JSON object; `None` for any other document.
pub open spec fn field(v: Json, key: Seq<char>) -> Option<Json> {
    match v {
        Json::Object(entries) => obj_get(entries, key),
        _ => None,
    }
}

/// An object lookup that finds `key` at index `i`, no earlier entry carrying it.
pub proof fn lemma_obj_get_at(entries: Seq<(Seq<char>, Json)>, key: Seq<char>, i: int)
    requires
        0 <= i < entries.len(),
        entries[i].0 == key,
        forall|j: int| 0 <= j < i ==> entries[j].0 != key,
    ensures
        obj_get(entries, key) == Some(entries[i].1),
{
    lemma_obj_get_skip(entries, key, i);
    assert(entries.skip(i)[0] == entries[i]);
}

/// An object lookup of a key that no entry carries.
pub proof fn lemma_obj_get_absent(entries: Seq<(Seq<char>, Json)>, key: Seq<char>)
    requires
        forall|j: int| 0 <= j < entries.len() ==> entries[j].0 != key,
    ensures
        obj_get(entries, key) is None,
{
    lemma_obj_get_skip(entries, key, entries.len() as int);
    assert(entries.skip(entries.len() as int).len() == 0);
}

pub proof fn lemma_models_of(s: Seq<JsonValue>)
    ensures
        models_of(s).len() == s.len(),
        forall|i: int| 0 <= i < s.len() ==> #[trigger] models_of(s)[i] == model_of(s[i]),
    decreases s.len(),
{
    if s.len() > 0 {
        lemma_models_of(s.drop_last());
    }
}

pub proof fn lemma_entry_models_of(s: Seq<(String, JsonValue)>)
    ensures
        entry_models_of(s).len() == s.len(),
        forall|i: int|
            0 <= i < s.len() ==> #[trigger] entry_models_of(s)[i] == (s[i].0@, model_of(s[i].1)),
    decreases s.len(),
{
    if s.len() > 0 {
        lemma_entry_models_of(s.drop_last());
    }
}

pub proof fn lemma_models_push(s: Seq<JsonValue>, x: JsonValue)
    ensures
        models_of(s.push(x)) == models_of(s).push(model_of(x)),
{
    assert(s.push(x).drop_last() =~= s);
}

proof fn lemma_entry_models_push(s: Seq<(String, JsonValue)>, x: (String, JsonValue))
    ensures
        entry_models_of(s.push(x)) == entry_models_of(s).push((x.0@, model_of(x.1))),
{
    assert(s.push(x).drop_last() =~= s);
}

/// Builds the model sequence of entries from the models of their keys and values.
pub proof fn lemma_entry_models_ext(s: Seq<(String, JsonValue)>, m: Seq<(Seq<char>, Json)>)
    requires
        s.len() == m.len(),
        forall|i: int| 0 <= i < s.len() ==> #[trigger] m[i] == (s[i].0@, model_of(s[i].1)),
    ensures
        entry_models_of(s) == m,
{
    lemma_entry_models_of(s);
    assert(entry_models_of(s) =~= m);
}

/// An object lookup with the first entries stepped over.
pub proof fn lemma_obj_get_skip(entries: Seq<(Seq<char>, Json)>, key: Seq<char>, i: int)
    requires
        0 <= i <= entries.len(),
        forall|j: int| 0 <= j < i ==> entries[j].0 != key,
    ensures
        obj_get(entries, key) == obj_get(entries.skip(i), key),
    decreases i,
{
    if i > 0 {
        lemma_obj_get_skip(entries.drop_first(), key, i - 1);
        assert(entries.drop_first().skip(i - 1) =~= entries.skip(i));
    } else {
        assert(entries.skip(0) =~= entries);
    }
}

impl JsonValue {
    /// A copy of the document, entry for entry.
    #[verifier::loop_isolation(false)]
    pub fn deep_clone(&self) -> (r: JsonValue)
        ensures
            r@ == self@,
        decreases self,
    {
        match self {
            JsonValue::Null => JsonValue::Null,
            JsonValue::Bool(b) => JsonValue::Bool(*b),
            JsonValue::Number(n) => JsonValue::Number(n.clone()),
            JsonValue::Str(s) => JsonValue::Str(s.clone()),
            JsonValue::Array(items) => {
                let mut out: Vec<JsonValue> = Vec::new();
                let mut i: usize = 0;
                while i < items.len()
                    invariant
                        0 <= i <= items.len(),
                        models_of(out@) == models_of(items@.take(i as int)),
                    decreases items.len() - i,
                {
                    assert(decreases_to!(*self => self->Array_0));
                    assert(decreases_to!(*items => items@));
                    assert(decreases_to!(items@ => items@[i as int]));
                    assert(decreases_to!(*self => items@[i as int]));
                    let c = items[i].deep_clone();
                    proof {
                        lemma_models_push(out@, c);
                        lemma_models_push(items@.take(i as int), items@[i as int]);
                        assert(items@.take(i as int).push(items@[i as int]) =~= items@.take(
                            i + 1,
                        ));
                    }
                    out.push(c);
                    i = i + 1;
                }
                assert(items@.take(items@.len() as int) =~= items@);
                JsonValue::Array(out)
            },
            JsonValue::Object(entries) => {
                let mut out: Vec<(String, JsonValue)> = Vec::new();
                let mut i: usize = 0;
                while i < entries.len()
                    invariant
                        0 <= i <= entries.len(),
                        entry_models_of(out@) == entry_models_of(entries@.take(i as int)),
                    decreases entries.len() - i,
                {
                    assert(decreases_to!(*self => self->Object_0));
                    assert(decreases_to!(*entries => entries@));
                    assert(decreases_to!(entries@ => entries@[i as int]));
                    assert(decreases_to!(entries@[i as int] => entries@[i as int].1));
                    assert(decreases_to!(*self => entries@[i as int].1));
                    let k = entries[i].0.clone();
                    let c = entries[i].1.deep_clone();
                    proof {
                        lemma_entry_models_push(out@, (k, c));
                        lemma_entry_models_push(entries@.take(i as int), entries@[i as int]);
                        assert(entries@.take(i as int).push(entries@[i as int]) =~= entries@.take(
                            i + 1,
                        ));
                    }
                    out.push((k, c));
                    i = i + 1;
                }
                assert(entries@.take(entries@.len() as int) =~= entries@);
                JsonValue::Object(out)
            },
        }
    }

    /// An object without entries.
    pub fn empty_object() -> (r: JsonValue)
        ensures
            r@ == Json::Object(Seq::empty()),
    {
        let entries: Vec<(String, JsonValue)> = Vec::new();
        proof {
            assert(entries@ =~= Seq::<(String, JsonValue)>::empty());
        }
        JsonValue::Object(entries)
    }

    /// The text of a JSON string; `None` for any other document.
    pub fn as_str(&self) -> (r: Option<&String>)
        ensures
            match r {
                Some(s) => str_of(self@) == Some(s@),
                None => str_of(self@) is None,
            },
    {
        match self {
            JsonValue::Str(s) => Some(s),
            _ => None,
        }
    }
}

/// The value of the first entry of `entries` whose key is `key`.
pub fn object_get<'a>(entries: &'a Vec<(String, JsonValue)>, key: &String) -> (r: Option<
    &'a JsonValue,
>)
    ensures
        match r {
            Some(v) => obj_get(entry_models_of(entries@), key@) == Some(v@),
            None => obj_get(entry_models_of(entries@), key@) is None,
        },
{
    let ghost m = entry_models_of(entries@);
    proof {
        lemma_entry_models_of(entries@);
    }
    let mut i: usize = 0;
    while i < entries.len()
        invariant
            0 <= i <= entries.len(),
            m == entry_models_of(entries@),
            m.len() == entries@.len(),
            forall|j: int| 0 <= j < m.len() ==> #[trigger] m[j] == (entries@[j].0@, model_of(entries@[j].1)),
            forall|j: int| 0 <= j < i ==> m[j].0 != key@,
        decreases entries.len() - i,
    {
        if entries[i].0 == *key {
            proof {
                lemma_obj_get_skip(m, key@, i as int);
                assert(m.skip(i as int)[0] == m[i as int]);
            }
            return Some(&entries[i].1);
        }
        i = i + 1;
    }
    proof {
        lemma_obj_get_skip(m, key@, i as int);
        assert(m.skip(i as int).len() == 0);
    }
    None
}

} // verus!
