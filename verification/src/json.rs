//! A structured-document value: the shape of the user-authored
//! role-assignment configuration before it has been validated.
//!
//! The surrounding program parses the wire format (JSON text) and hands the
//! library one of these; the library validates and stores it. Numbers keep
//! only what the schema checks ever ask of them: whether the number is
//! representable as an unsigned 64-bit integer.

use vstd::prelude::*;

verus! {

/// A document value. `UInt` is a number representable as `u64`; any other
/// number (negative or fractional) is `OtherNum`, whose exact value the
/// library never reads.
#[derive(Debug, PartialEq)]
pub enum JsonValue {
    Null,
    Bool(bool),
    UInt(u64),
    OtherNum,
    Text(String),
    Array(Vec<JsonValue>),
    Object(Vec<(String, JsonValue)>),
}

/// The mathematical model of a document value.
pub enum JsonV {
    Null,
    Bool(bool),
    UInt(u64),
    OtherNum,
    Text(Seq<char>),
    Array(Seq<JsonV>),
    Object(Seq<(Seq<char>, JsonV)>),
}

/// The model of one document value.
pub open spec fn jv_view(v: JsonValue) -> JsonV
    decreases v, 0int,
{
    match v {
        JsonValue::Null => JsonV::Null,
        JsonValue::Bool(b) => JsonV::Bool(b),
        JsonValue::UInt(n) => JsonV::UInt(n),
        JsonValue::OtherNum => JsonV::OtherNum,
        JsonValue::Text(s) => JsonV::Text(s@),
        JsonValue::Array(items) => JsonV::Array(arr_view(items, items.len() as int)),
        JsonValue::Object(entries) => JsonV::Object(obj_view(entries, entries.len() as int)),
    }
}

/// Models of the first `n` elements of an array's contents.
pub open spec fn arr_view(items: Vec<JsonValue>, n: int) -> Seq<JsonV>
    decreases items, n,
{
    if n <= 0 || n > items.len() {
        Seq::empty()
    } else {
        arr_view(items, n - 1).push(jv_view(items[n - 1]))
    }
}

/// Models of the first `n` entries of an object's contents.
pub open spec fn obj_view(entries: Vec<(String, JsonValue)>, n: int) -> Seq<(Seq<char>, JsonV)>
    decreases entries, n,
{
    if n <= 0 || n > entries.len() {
        Seq::empty()
    } else {
        obj_view(entries, n - 1).push((entries[n - 1].0@, jv_view(entries[n - 1].1)))
    }
}

impl View for JsonValue {
    type V = JsonV;

    open spec fn view(&self) -> JsonV {
        jv_view(*self)
    }
}

impl DeepView for JsonValue {
    type V = JsonV;

    open spec fn deep_view(&self) -> JsonV {
        jv_view(*self)
    }
}

pub proof fn lemma_arr_view(items: Vec<JsonValue>, n: int)
    requires
        0 <= n <= items.len(),
    ensures
        arr_view(items, n).len() == n,
        forall|i: int| 0 <= i < n ==> arr_view(items, n)[i] == items[i]@,
    decreases n,
{
    if n > 0 {
        lemma_arr_view(items, n - 1);
    }
}

pub proof fn lemma_obj_view(entries: Vec<(String, JsonValue)>, n: int)
    requires
        0 <= n <= entries.len(),
    ensures
        obj_view(entries, n).len() == n,
        forall|i: int| 0 <= i < n ==> obj_view(entries, n)[i]
            == (entries[i].0@, entries[i].1@),
    decreases n,
{
    if n > 0 {
        lemma_obj_view(entries, n - 1);
    }
}

/// Two arrays whose elements have equal models have equal array models.
pub proof fn lemma_arr_view_pointwise(a: Vec<JsonValue>, b: Vec<JsonValue>)
    requires
        a.len() == b.len(),
        forall|i: int| 0 <= i < a.len() ==> a[i]@ == b[i]@,
    ensures
        arr_view(a, a.len() as int) == arr_view(b, b.len() as int),
{
    lemma_arr_view(a, a.len() as int);
    lemma_arr_view(b, b.len() as int);
    assert(arr_view(a, a.len() as int) =~= arr_view(b, b.len() as int));
}

/// Two objects whose keys and values have equal models have equal object models.
pub proof fn lemma_obj_view_pointwise(a: Vec<(String, JsonValue)>, b: Vec<(String, JsonValue)>)
    requires
        a.len() == b.len(),
        forall|i: int| 0 <= i < a.len() ==> a[i].0@ == b[i].0@ && a[i].1@ == b[i].1@,
    ensures
        obj_view(a, a.len() as int) == obj_view(b, b.len() as int),
{
    lemma_obj_view(a, a.len() as int);
    lemma_obj_view(b, b.len() as int);
    assert(obj_view(a, a.len() as int) =~= obj_view(b, b.len() as int));
}

/// Looks a key up among an object's entries: the value of the first pair
/// carrying that key.
pub open spec fn obj_lookup(entries: Seq<(Seq<char>, JsonV)>, key: Seq<char>) -> Option<JsonV>
    decreases entries.len(),
{
    if entries.len() == 0 {
        None
    } else if entries[0].0 == key {
        Some(entries[0].1)
    } else {
        obj_lookup(entries.drop_first(), key)
    }
}

/// What field lookup returns: a field of an object, nothing on any other value.
pub open spec fn jv_get(v: JsonV, key: Seq<char>) -> Option<JsonV> {
    match v {
        JsonV::Object(entries) => obj_lookup(entries, key),
        _ => None,
    }
}

proof fn lemma_obj_lookup_skip(entries: Seq<(Seq<char>, JsonV)>, key: Seq<char>, i: int)
    requires
        0 <= i <= entries.len(),
        forall|j: int| 0 <= j < i ==> (#[trigger] entries[j]).0 != key,
    ensures
        obj_lookup(entries, key) == obj_lookup(entries.skip(i), key),
    decreases i,
{
    if i > 0 {
        lemma_obj_lookup_skip(entries, key, i - 1);
        let s = entries.skip(i - 1);
        assert(s.len() == entries.len() - i + 1);
        assert(s[0] == entries[i - 1]);
        assert(s[0].0 != key);
        assert(obj_lookup(s, key) == obj_lookup(s.drop_first(), key));
        assert(s.drop_first() =~= entries.skip(i));
    } else {
        assert(entries.skip(0) =~= entries);
    }
}

impl JsonValue {
    /// Field lookup as the document collaborator's accessor behaves: `Some`
    /// on an object that has the key, `None` on everything else.
    #[verifier::loop_isolation(false)]
    pub fn get<'a>(&'a self, key: &String) -> (r: Option<&'a JsonValue>)
        ensures
            match r {
                Some(f) => jv_get(self@, key@) == Some(f@),
                None => jv_get(self@, key@) is None,
            },
    {
        match self {
            JsonValue::Object(entries) => {
                proof {
                    lemma_obj_view(*entries, entries.len() as int);
                }
                let ghost ev = obj_view(*entries, entries.len() as int);
                let mut i: usize = 0;
                while i < entries.len()
                    invariant
                        i <= entries.len(),
                        forall|j: int| 0 <= j < i ==> (#[trigger] ev[j]).0 != key@,
                    decreases entries.len() - i,
                {
                    if entries[i].0 == *key {
                        proof {
                            lemma_obj_lookup_skip(ev, key@, i as int);
                            assert(ev.skip(i as int)[0] == ev[i as int]);
                        }
                        return Some(&entries[i].1);
                    }
                    i += 1;
                }
                proof {
                    lemma_obj_lookup_skip(ev, key@, entries.len() as int);
                    assert(ev.skip(entries.len() as int) =~= Seq::<(Seq<char>, JsonV)>::empty());
                }
                None
            },
            _ => None,
        }
    }

    /// Whether the value is a number of the document format.
    pub fn is_number(&self) -> (r: bool)
        ensures
            r == (self@ is UInt || self@ is OtherNum),
    {
        matches!(self, JsonValue::UInt(_) | JsonValue::OtherNum)
    }

    /// Whether the value is a number representable as `u64`.
    pub fn is_u64(&self) -> (r: bool)
        ensures
            r == (self@ is UInt),
    {
        matches!(self, JsonValue::UInt(_))
    }

    /// Whether the value is a text string.
    pub fn is_string(&self) -> (r: bool)
        ensures
            r == (self@ is Text),
    {
        matches!(self, JsonValue::Text(_))
    }
}

impl Clone for JsonValue {
    /// A clone has the same model as the original.
    #[verifier::loop_isolation(false)]
    fn clone(&self) -> (res: Self)
        ensures
            res@ == self@,
        decreases self, 0int,
    {
        match self {
            JsonValue::Null => JsonValue::Null,
            JsonValue::Bool(b) => JsonValue::Bool(*b),
            JsonValue::UInt(n) => JsonValue::UInt(*n),
            JsonValue::OtherNum => JsonValue::OtherNum,
            JsonValue::Text(s) => JsonValue::Text(s.clone()),
            JsonValue::Array(items) => {
                let mut out: Vec<JsonValue> = Vec::new();
                let mut i: usize = 0;
                while i < items.len()
                    invariant
                        i <= items.len(),
                        out.len() == i,
                        forall|j: int| 0 <= j < i ==> out[j]@ == items[j]@,
                    decreases items.len() - i,
                {
                    out.push(items[i].clone());
                    i += 1;
                }
                proof {
                    lemma_arr_view_pointwise(out, *items);
                }
                JsonValue::Array(out)
            },
            JsonValue::Object(entries) => {
                let mut out: Vec<(String, JsonValue)> = Vec::new();
                let mut i: usize = 0;
                while i < entries.len()
                    invariant
                        i <= entries.len(),
                        out.len() == i,
                        forall|j: int| 0 <= j < i ==> out[j].0@ == entries[j].0@
                            && out[j].1@ == entries[j].1@,
                    decreases entries.len() - i,
                {
                    out.push((entries[i].0.clone(), entries[i].1.clone()));
                    i += 1;
                }
                proof {
                    lemma_obj_view_pointwise(out, *entries);
                }
                JsonValue::Object(out)
            },
        }
    }
}

} // verus!
