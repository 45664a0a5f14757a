//! An owned model of a JSON document.
//!
//! The service answers with a JSON body; the parsing and reshaping logic
//! works on this model, in which everything the logic reads (object keys,
//! array structure, strings) is a plain value.  A number is carried as its
//! literal JSON text and never interpreted.

use vstd::prelude::*;

verus! {

/// An owned JSON value.
///
/// `Num` holds the number's literal text (for example `"1"` or `"2.5e3"`);
/// the library moves numbers around but never reads them.
#[derive(Debug, PartialEq, Eq)]
pub enum JsonValue {
    Null,
    Bool(bool),
    Num(String),
    Str(String),
    Arr(Vec<JsonValue>),
    Obj(Vec<(String, JsonValue)>),
}

/// The mathematical shape of a [`JsonValue`]: strings become `Seq<char>`,
/// vectors become `Seq`.  Contracts speak of this type.
pub enum JsonVal {
    Null,
    Bool(bool),
    Num(Seq<char>),
    Str(Seq<char>),
    Arr(Seq<JsonVal>),
    Obj(Seq<(Seq<char>, JsonVal)>),
}

pub open spec fn view_of(v: JsonValue) -> JsonVal
    decreases v,
{
    match v {
        JsonValue::Null => JsonVal::Null,
        JsonValue::Bool(b) => JsonVal::Bool(b),
        JsonValue::Num(t) => JsonVal::Num(t@),
        JsonValue::Str(s) => JsonVal::Str(s@),
        JsonValue::Arr(items) => JsonVal::Arr(views_of(items@)),
        JsonValue::Obj(entries) => JsonVal::Obj(entry_views_of(entries@)),
    }
}

pub open spec fn views_of(items: Seq<JsonValue>) -> Seq<JsonVal>
    decreases items,
{
    if items.len() == 0 {
        Seq::empty()
    } else {
        seq![view_of(items[0])] + views_of(items.drop_first())
    }
}

pub open spec fn entry_views_of(entries: Seq<(String, JsonValue)>) -> Seq<(Seq<char>, JsonVal)>
    decreases entries,
{
    if entries.len() == 0 {
        Seq::empty()
    } else {
        seq![(entries[0].0@, view_of(entries[0].1))] + entry_views_of(entries.drop_first())
    }
}

/// The element views line up with the elements, position by position.
pub proof fn lemma_views_of(items: Seq<JsonValue>)
    ensures
        views_of(items).len() == items.len(),
        forall|i: int| 0 <= i < items.len() ==> views_of(items)[i] == view_of(#[trigger] items[i]),
    decreases items.len(),
{
    if items.len() > 0 {
        lemma_views_of(items.drop_first());
        assert forall|i: int| 0 <= i < items.len() implies views_of(items)[i]
            == view_of(#[trigger] items[i]) by {
            if i > 0 {
                assert(items.drop_first()[i - 1] == items[i]);
                assert(views_of(items)[i] == views_of(items.drop_first())[i - 1]);
            }
        }
    }
}

/// The entry views line up with the entries, position by position.
pub proof fn lemma_entry_views_of(entries: Seq<(String, JsonValue)>)
    ensures
        entry_views_of(entries).len() == entries.len(),
        forall|i: int| 0 <= i < entries.len() ==> entry_views_of(entries)[i]
            == ((#[trigger] entries[i]).0@, view_of(entries[i].1)),
    decreases entries.len(),
{
    if entries.len() > 0 {
        lemma_entry_views_of(entries.drop_first());
        assert forall|i: int| 0 <= i < entries.len() implies entry_views_of(entries)[i]
            == ((#[trigger] entries[i]).0@, view_of(entries[i].1)) by {
            if i > 0 {
                assert(entries.drop_first()[i - 1] == entries[i]);
                assert(entry_views_of(entries)[i] == entry_views_of(entries.drop_first())[i - 1]);
            }
        }
    }
}

impl View for JsonValue {
    type V = JsonVal;

    open spec fn view(&self) -> JsonVal {
        view_of(*self)
    }
}

/// The value stored under `key`: the first matching entry decides.
pub open spec fn spec_obj_get(entries: Seq<(Seq<char>, JsonVal)>, key: Seq<char>) -> Option<
    JsonVal,
>
    decreases entries.len(),
{
    if entries.len() == 0 {
        None
    } else if entries[0].0 == key {
        Some(entries[0].1)
    } else {
        spec_obj_get(entries.drop_first(), key)
    }
}

pub proof fn lemma_obj_get_found(entries: Seq<(Seq<char>, JsonVal)>, key: Seq<char>, i: int)
    requires
        0 <= i < entries.len(),
        entries[i].0 == key,
        forall|j: int| 0 <= j < i ==> (#[trigger] entries[j]).0 != key,
    ensures
        spec_obj_get(entries, key) == Some(entries[i].1),
    decreases i,
{
    if i > 0 {
        lemma_obj_get_found(entries.drop_first(), key, i - 1);
    }
}

pub proof fn lemma_obj_get_none(entries: Seq<(Seq<char>, JsonVal)>, key: Seq<char>)
    requires
        forall|j: int| 0 <= j < entries.len() ==> (#[trigger] entries[j]).0 != key,
    ensures
        spec_obj_get(entries, key) is None,
    decreases entries.len(),
{
    if entries.len() > 0 {
        lemma_obj_get_none(entries.drop_first(), key);
    }
}

/// Looks `key` up among the entries of an object, first match first.
pub fn obj_get<'a>(entries: &'a Vec<(String, JsonValue)>, key: &str) -> (r: Option<&'a JsonValue>)
    ensures
        match r {
            Some(v) => spec_obj_get(entry_views_of(entries@), key@) == Some(v@),
            None => spec_obj_get(entry_views_of(entries@), key@) is None,
        },
{
    proof {
        lemma_entry_views_of(entries@);
    }
    let key_string: String = key.to_owned();
    let n = entries.len();
    let mut i: usize = 0;
    while i < n
        invariant
            n == entries@.len(),
            i <= n,
            key_string@ == key@,
            forall|j: int| 0 <= j < i ==> (#[trigger] entries@[j]).0@ != key@,
            entry_views_of(entries@).len() == entries@.len(),
            forall|j: int| 0 <= j < entries@.len() ==> entry_views_of(entries@)[j] == ((
                #[trigger] entries@[j]).0@, view_of(entries@[j].1)),
        decreases n - i,
    {
        if entries[i].0 == key_string {
            proof {
                assert forall|j: int| 0 <= j < i implies (#[trigger] entry_views_of(
                    entries@,
                )[j]).0 != key@ by {
                    assert(entries@[j].0@ != key@);
                }
                lemma_obj_get_found(entry_views_of(entries@), key@, i as int);
            }
            return Some(&entries[i].1);
        }
        i += 1;
    }
    proof {
        assert forall|j: int| 0 <= j < entries@.len() implies (#[trigger] entry_views_of(
            entries@,
        )[j]).0 != key@ by {
            assert(entries@[j].0@ != key@);
        }
        lemma_obj_get_none(entry_views_of(entries@), key@);
    }
    None
}

/// A verified deep copy: the copy has the very same view as the original.
pub fn clone_value(v: &JsonValue) -> (r: JsonValue)
    ensures
        r@ == v@,
    decreases *v,
{
    match v {
        JsonValue::Null => JsonValue::Null,
        JsonValue::Bool(b) => JsonValue::Bool(*b),
        JsonValue::Num(t) => JsonValue::Num(t.clone()),
        JsonValue::Str(s) => JsonValue::Str(s.clone()),
        JsonValue::Arr(items) => {
            let n = items.len();
            let mut out: Vec<JsonValue> = Vec::new();
            let mut i: usize = 0;
            while i < n
                invariant
                    n == items@.len(),
                    i <= n,
                    out@.len() == i,
                    forall|j: int| 0 <= j < i ==> view_of(#[trigger] out@[j]) == view_of(
                        items@[j],
                    ),
                    *v == JsonValue::Arr(*items),
                decreases n - i,
            {
                proof {
                    assert((*v)->Arr_0 == *items);
                    assert(decreases_to!(*v => (*v)->Arr_0));
                    assert(decreases_to!(*items => items@));
                    assert(decreases_to!(items@ => items@[i as int]));
                }
                let c = clone_value(&items[i]);
                out.push(c);
                i += 1;
            }
            proof {
                lemma_views_of(out@);
                lemma_views_of(items@);
                assert forall|j: int| 0 <= j < out@.len() implies views_of(out@)[j] == views_of(
                    items@,
                )[j] by {
                    assert(view_of(out@[j]) == view_of(items@[j]));
                }
                assert(views_of(out@) =~= views_of(items@));
            }
            JsonValue::Arr(out)
        },
        JsonValue::Obj(entries) => {
            let n = entries.len();
            let mut out: Vec<(String, JsonValue)> = Vec::new();
            let mut i: usize = 0;
            while i < n
                invariant
                    n == entries@.len(),
                    i <= n,
                    out@.len() == i,
                    forall|j: int| 0 <= j < i ==> (#[trigger] out@[j]).0@ == entries@[j].0@
                        && view_of(out@[j].1) == view_of(entries@[j].1),
                    *v == JsonValue::Obj(*entries),
                decreases n - i,
            {
                proof {
                    assert((*v)->Obj_0 == *entries);
                    assert(decreases_to!(*v => (*v)->Obj_0));
                    assert(decreases_to!(*entries => entries@));
                    assert(decreases_to!(entries@ => entries@[i as int]));
                    assert(decreases_to!(entries@[i as int] => entries@[i as int].1));
                }
                let name = entries[i].0.clone();
                let c = clone_value(&entries[i].1);
                out.push((name, c));
                i += 1;
            }
            proof {
                lemma_entry_views_of(out@);
                lemma_entry_views_of(entries@);
                assert forall|j: int| 0 <= j < out@.len() implies entry_views_of(out@)[j]
                    == entry_views_of(entries@)[j] by {
                    assert(out@[j].0@ == entries@[j].0@);
                    assert(view_of(out@[j].1) == view_of(entries@[j].1));
                }
                assert(entry_views_of(out@) =~= entry_views_of(entries@));
            }
            JsonValue::Obj(out)
        },
    }
}

} // verus!
