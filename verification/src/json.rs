use vstd::prelude::*;

verus! {

/// A JSON number, split the way `serde_json` keeps it: a non-negative integer,
/// a negative integer, or a float (held by its decimal text).
#[derive(Debug, Clone)]
pub enum JsonNumber {
    PosInt(u64),
    NegInt(i64),
    Float(String),
}

/// A JSON value. An object is a list of entries; a later entry with the same key
/// takes precedence over an earlier one.
#[derive(Debug)]
pub enum Json {
    Null,
    Bool(bool),
    Number(JsonNumber),
    Str(String),
    Array(Vec<Json>),
    Object(Vec<(String, Json)>),
}

/// Mathematical value of a [`JsonNumber`].
pub enum NumberView {
    PosInt(u64),
    NegInt(i64),
    Float(Seq<char>),
}

/// Mathematical value of a [`Json`] value.
pub enum JsonView {
    Null,
    Bool(bool),
    Number(NumberView),
    Str(Seq<char>),
    Array(Seq<JsonView>),
    Object(Seq<(Seq<char>, JsonView)>),
}

pub open spec fn number_view(n: JsonNumber) -> NumberView {
    match n {
        JsonNumber::PosInt(u) => NumberView::PosInt(u),
        JsonNumber::NegInt(i) => NumberView::NegInt(i),
        JsonNumber::Float(s) => NumberView::Float(s@),
    }
}

pub open spec fn json_view(j: Json) -> JsonView
    decreases j,
{
    match j {
        Json::Null => JsonView::Null,
        Json::Bool(b) => JsonView::Bool(b),
        Json::Number(n) => JsonView::Number(number_view(n)),
        Json::Str(s) => JsonView::Str(s@),
        Json::Array(v) => JsonView::Array(items_view(v@)),
        Json::Object(v) => JsonView::Object(entries_view(v@)),
    }
}

pub open spec fn items_view(s: Seq<Json>) -> Seq<JsonView>
    decreases s,
{
    if s.len() == 0 {
        Seq::empty()
    } else {
        items_view(s.drop_last()).push(json_view(s.last()))
    }
}

pub open spec fn entries_view(s: Seq<(String, Json)>) -> Seq<(Seq<char>, JsonView)>
    decreases s,
{
    if s.len() == 0 {
        Seq::empty()
    } else {
        entries_view(s.drop_last()).push((s.last().0@, json_view(s.last().1)))
    }
}

impl View for Json {
    type V = JsonView;

    open spec fn view(&self) -> JsonView {
        json_view(*self)
    }
}

impl View for JsonNumber {
    type V = NumberView;

    open spec fn view(&self) -> NumberView {
        number_view(*self)
    }
}

// ---------------------------------------------------------------------------
// Reading JSON values.
// ---------------------------------------------------------------------------

/// The value of the last entry with key `k`.
pub open spec fn lookup(es: Seq<(Seq<char>, JsonView)>, k: Seq<char>) -> Option<JsonView>
    decreases es.len(),
{
    if es.len() == 0 {
        None
    } else if es.last().0 == k {
        Some(es.last().1)
    } else {
        lookup(es.drop_last(), k)
    }
}

/// The field `k` of an object; nothing for other values (`Value::get` with a string key).
pub open spec fn field(v: JsonView, k: Seq<char>) -> Option<JsonView> {
    match v {
        JsonView::Object(es) => lookup(es, k),
        _ => None,
    }
}

/// The field `k` of an optional value.
pub open spec fn field_of(v: Option<JsonView>, k: Seq<char>) -> Option<JsonView> {
    match v {
        Some(x) => field(x, k),
        None => None,
    }
}

/// The text of a string value (`Value::as_str`).
pub open spec fn str_of(v: Option<JsonView>) -> Option<Seq<char>> {
    match v {
        Some(JsonView::Str(s)) => Some(s),
        _ => None,
    }
}

/// The flag of a boolean value (`Value::as_bool`).
pub open spec fn bool_of(v: Option<JsonView>) -> Option<bool> {
    match v {
        Some(JsonView::Bool(b)) => Some(b),
        _ => None,
    }
}

/// A number as an `i64`, when it is an integer that fits (`Value::as_i64`).
pub open spec fn i64_of(v: Option<JsonView>) -> Option<i64> {
    match v {
        Some(JsonView::Number(NumberView::PosInt(u))) => if u <= i64::MAX as u64 {
            Some(u as i64)
        } else {
            None
        },
        Some(JsonView::Number(NumberView::NegInt(i))) => Some(i),
        _ => None,
    }
}

/// The items of an array value (`Value::as_array`).
pub open spec fn array_of(v: Option<JsonView>) -> Option<Seq<JsonView>> {
    match v {
        Some(JsonView::Array(items)) => Some(items),
        _ => None,
    }
}

pub open spec fn opt_view(o: Option<&Json>) -> Option<JsonView> {
    match o {
        Some(j) => Some(j@),
        None => None,
    }
}

pub proof fn lemma_entries_view_index(s: Seq<(String, Json)>, i: int)
    requires
        0 <= i < s.len(),
    ensures
        entries_view(s).len() == s.len(),
        entries_view(s)[i] == (s[i].0@, json_view(s[i].1)),
    decreases s.len(),
{
    if i < s.len() - 1 {
        lemma_entries_view_index(s.drop_last(), i);
    } else {
        lemma_entries_view_len(s.drop_last());
    }
}

pub proof fn lemma_entries_view_len(s: Seq<(String, Json)>)
    ensures
        entries_view(s).len() == s.len(),
    decreases s.len(),
{
    if s.len() > 0 {
        lemma_entries_view_len(s.drop_last());
    }
}

pub proof fn lemma_items_view_index(s: Seq<Json>, i: int)
    requires
        0 <= i < s.len(),
    ensures
        items_view(s).len() == s.len(),
        items_view(s)[i] == json_view(s[i]),
    decreases s.len(),
{
    if i < s.len() - 1 {
        lemma_items_view_index(s.drop_last(), i);
    } else {
        lemma_items_view_len(s.drop_last());
    }
}

pub proof fn lemma_items_view_len(s: Seq<Json>)
    ensures
        items_view(s).len() == s.len(),
    decreases s.len(),
{
    if s.len() > 0 {
        lemma_items_view_len(s.drop_last());
    }
}

proof fn lemma_lookup_take(es: Seq<(Seq<char>, JsonView)>, j: int, k: Seq<char>)
    requires
        0 <= j < es.len(),
        es[j].0 != k,
    ensures
        lookup(es.take(j + 1), k) == lookup(es.take(j), k),
{
    assert(es.take(j + 1).drop_last() =~= es.take(j));
}

impl Json {
    /// The field `key` of an object, like `Value::get`.
    pub fn get(&self, key: &str) -> (r: Option<&Json>)
        ensures
            opt_view(r) == field(self@, key@),
    {
        match self {
            Json::Object(entries) => {
                let ghost es = entries_view(entries@);
                assert(self@ == JsonView::Object(es));
                proof {
                    lemma_entries_view_len(entries@);
                }
                let mut j = entries.len();
                assert(es.take(j as int) =~= es);
                while j > 0
                    invariant
                        j <= entries.len(),
                        self@ == JsonView::Object(es),
                        es == entries_view(entries@),
                        es.len() == entries.len(),
                        lookup(es, key@) == lookup(es.take(j as int), key@),
                    decreases j,
                {
                    let e = &entries[j - 1];
                    proof {
                        lemma_entries_view_index(entries@, j - 1);
                    }
                    if crate::text::str_eq(&e.0, key) {
                        assert(*e == entries@[j - 1]);
                        assert(es.take(j as int).last() == es[j - 1]);
                        assert(es.take(j as int).len() > 0);
                        assert(lookup(es.take(j as int), key@) == Some(json_view(e.1)));
                        return Some(&e.1);
                    }
                    proof {
                        lemma_lookup_take(es, j - 1, key@);
                    }
                    j -= 1;
                }
                None
            },
            _ => None,
        }
    }

    /// The text of a string value, like `Value::as_str`.
    pub fn as_str(&self) -> (r: Option<&String>)
        ensures
            match r {
                Some(s) => str_of(Some(self@)) == Some(s@),
                None => str_of(Some(self@)) is None,
            },
    {
        match self {
            Json::Str(s) => Some(s),
            _ => None,
        }
    }

    /// The flag of a boolean value, like `Value::as_bool`.
    pub fn as_bool(&self) -> (r: Option<bool>)
        ensures
            r == bool_of(Some(self@)),
    {
        match self {
            Json::Bool(b) => Some(*b),
            _ => None,
        }
    }

    /// An integer value that fits in an `i64`, like `Value::as_i64`.
    pub fn as_i64(&self) -> (r: Option<i64>)
        ensures
            r == i64_of(Some(self@)),
    {
        match self {
            Json::Number(JsonNumber::PosInt(u)) => if *u <= i64::MAX as u64 {
                Some(*u as i64)
            } else {
                None
            },
            Json::Number(JsonNumber::NegInt(i)) => Some(*i),
            _ => None,
        }
    }

    /// The items of an array value, like `Value::as_array`.
    pub fn as_array(&self) -> (r: Option<&Vec<Json>>)
        ensures
            match r {
                Some(v) => array_of(Some(self@)) == Some(items_view(v@)),
                None => array_of(Some(self@)) is None,
            },
    {
        match self {
            Json::Array(v) => Some(v),
            _ => None,
        }
    }
}

/// The text of an optional string value, like `.and_then(|v| v.as_str())`.
pub fn opt_str<'a>(o: Option<&'a Json>) -> (r: Option<&'a String>)
    ensures
        match r {
            Some(s) => str_of(opt_view(o)) == Some(s@),
            None => str_of(opt_view(o)) is None,
        },
{
    match o {
        Some(j) => j.as_str(),
        None => None,
    }
}

/// The items of an optional array value, like `.and_then(|v| v.as_array())`.
pub fn opt_array<'a>(o: Option<&'a Json>) -> (r: Option<&'a Vec<Json>>)
    ensures
        match r {
            Some(v) => array_of(opt_view(o)) == Some(items_view(v@)),
            None => array_of(opt_view(o)) is None,
        },
{
    match o {
        Some(j) => j.as_array(),
        None => None,
    }
}

/// The field `key` of an optional value, like `.and_then(|v| v.get(key))`.
pub fn opt_get<'a>(o: Option<&'a Json>, key: &str) -> (r: Option<&'a Json>)
    ensures
        opt_view(r) == field_of(opt_view(o), key@),
{
    match o {
        Some(j) => j.get(key),
        None => None,
    }
}

/// The integer of an optional value, like `.and_then(|v| v.as_i64())`.
pub fn opt_i64(o: Option<&Json>) -> (r: Option<i64>)
    ensures
        r == i64_of(opt_view(o)),
{
    match o {
        Some(j) => j.as_i64(),
        None => None,
    }
}

// ---------------------------------------------------------------------------
// Building JSON values.
// ---------------------------------------------------------------------------

/// The entries of an object without those with key `k`.
pub open spec fn without_key(es: Seq<(Seq<char>, JsonView)>, k: Seq<char>) -> Seq<(Seq<char>, JsonView)> {
    es.filter(other_key(k))
}

/// Whether an entry has a key other than `k`.
pub open spec fn other_key(k: Seq<char>) -> spec_fn((Seq<char>, JsonView)) -> bool {
    |e: (Seq<char>, JsonView)| e.0 != k
}

/// The object a field assignment `value[k] = v` leaves behind: `null` becomes an object,
/// and an object gets `k` set to `v` in place of any earlier value.
pub open spec fn with_field(o: JsonView, k: Seq<char>, v: JsonView) -> JsonView {
    match o {
        JsonView::Object(es) => JsonView::Object(without_key(es, k).push((k, v))),
        _ => JsonView::Object(seq![(k, v)]),
    }
}

pub open spec fn is_object_or_null(o: JsonView) -> bool {
    o is Object || o is Null
}

pub proof fn lemma_entries_view_push(s: Seq<(String, Json)>, e: (String, Json))
    ensures
        entries_view(s.push(e)) == entries_view(s).push((e.0@, json_view(e.1))),
{
    assert(s.push(e).drop_last() =~= s);
}

pub proof fn lemma_items_view_push(s: Seq<Json>, e: Json)
    ensures
        items_view(s.push(e)) == items_view(s).push(json_view(e)),
{
    assert(s.push(e).drop_last() =~= s);
}

impl Json {
    /// Sets field `key` to `value`, like `value[key] = v` on a `serde_json::Value`
    /// (which panics on values other than objects and `null`).
    pub fn set_field(&mut self, key: String, value: Json)
        requires
            is_object_or_null(old(self)@),
        ensures
            final(self)@ == with_field(old(self)@, key@, value@),
    {
        let mut current = Json::Null;
        std::mem::swap(&mut current, self);
        let entries: Vec<(String, Json)> = match current {
            Json::Object(es) => es,
            _ => Vec::new(),
        };
        let ghost src = entries@;
        let ghost p = other_key(key@);
        let mut kept: Vec<(String, Json)> = Vec::new();
        assert(entries_view(src.take(0)).filter(p) =~= entries_view(kept@)) by {
            assert(src.take(0) =~= Seq::<(String, Json)>::empty());
        }
        for e in it: entries.into_iter()
            invariant
                it.seq() == src,
                p == other_key(key@),
                entries_view(kept@) == entries_view(src.take(it.index() as int)).filter(p),
        {
            let ghost i = it.index();
            assert(e == src[i as int]);
            proof {
                assert(src.take(i + 1) =~= src.take(i as int).push(e));
                lemma_entries_view_push(src.take(i as int), e);
                entries_view(src.take(i as int)).lemma_filter_push((e.0@, json_view(e.1)), p);
            }
            let ghost ev = (e.0@, json_view(e.1));
            if !crate::text::str_eq(&e.0, &key) {
                let ghost before = kept@;
                kept.push(e);
                proof {
                    lemma_entries_view_push(before, e);
                }
            }
        }
        assert(src.take(src.len() as int) =~= src);
        let ghost before = kept@;
        kept.push((key, value));
        proof {
            lemma_entries_view_push(before, (key, value));
            assert(entries_view(Seq::<(String, Json)>::empty()) =~= Seq::<(Seq<char>, JsonView)>::empty());
            if !(old(self)@ is Object) {
                assert(src =~= Seq::<(String, Json)>::empty());
            }
        }
        *self = Json::Object(kept);
        assert(without_key(entries_view(src), key@) == entries_view(src).filter(p));
    }
}

// ---------------------------------------------------------------------------
// Laws.
// ---------------------------------------------------------------------------

proof fn lemma_lookup_without_key(es: Seq<(Seq<char>, JsonView)>, k: Seq<char>, k2: Seq<char>)
    requires
        k2 != k,
    ensures
        lookup(without_key(es, k), k2) == lookup(es, k2),
    decreases es.len(),
{
    if es.len() > 0 {
        let d = es.drop_last();
        lemma_lookup_without_key(d, k, k2);
        assert(d.push(es.last()) =~= es);
        d.lemma_filter_push(es.last(), other_key(k));
        let f = without_key(d, k);
        if es.last().0 != k {
            assert(f.push(es.last()).drop_last() =~= f);
        }
    }
}

/// Setting a field and reading it back gives the value set; other fields read as before.
pub proof fn law_set_field_then_get(o: JsonView, k: Seq<char>, v: JsonView, other: Seq<char>)
    requires
        is_object_or_null(o),
    ensures
        field(with_field(o, k, v), k) == Some(v),
        other != k ==> field(with_field(o, k, v), other) == field(o, other),
{
    match o {
        JsonView::Object(es) => {
            let f = without_key(es, k);
            assert(f.push((k, v)).drop_last() =~= f);
            if other != k {
                lemma_lookup_without_key(es, k, other);
                assert(lookup(f.push((k, v)), other) == lookup(f, other));
            }
        },
        _ => {
            let one = seq![(k, v)];
            assert(one.drop_last() =~= Seq::<(Seq<char>, JsonView)>::empty());
            assert(lookup(one, k) == Some(v));
            if other != k {
                assert(lookup(one, other) == lookup(one.drop_last(), other));
                assert(lookup(Seq::<(Seq<char>, JsonView)>::empty(), other) is None);
            }
        },
    }
}

} // verus!
