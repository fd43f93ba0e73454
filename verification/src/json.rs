//! JSON documents as values.
use vstd::prelude::*;
use crate::text;
use crate::text::{parse_number, same_text};

verus! {

/// A JSON value; a number stands as it is written.
#[derive(Debug, PartialEq, Eq)]
pub enum Json {
    Null,
    Bool(bool),
    Number(String),
    Text(String),
    List(Vec<Json>),
    Object(Vec<(String, Json)>),
}

/// The first position from `from` on with the given key.
pub open spec fn key_position(fields: Seq<(String, Json)>, key: Seq<char>, from: int) -> Option<int>
    decreases fields.len() - from,
{
    if from < 0 || from >= fields.len() {
        None
    } else if fields[from].0@ == key {
        Some(from)
    } else {
        key_position(fields, key, from + 1)
    }
}

/// The value of a field, where `value` is an object with it.
pub open spec fn field(value: Json, key: Seq<char>) -> Option<Json> {
    match value {
        Json::Object(fields) => match key_position(fields@, key, 0) {
            Some(i) => Some(fields@[i].1),
            None => None,
        },
        _ => None,
    }
}

/// The text that a value is.
pub open spec fn text_value(value: Json) -> Option<Seq<char>> {
    match value {
        Json::Text(text) => Some(text@),
        _ => None,
    }
}

/// The text of a field.
pub open spec fn text_field(value: Json, key: Seq<char>) -> Option<Seq<char>> {
    match field(value, key) {
        Some(inner) => text_value(inner),
        None => None,
    }
}

/// The value of a field of a record with `size` fields: a record is written as an object, or as the
/// list of its values in the order of its fields.
pub open spec fn record_field(value: Json, size: int, at: int, key: Seq<char>) -> Option<Json> {
    match value {
        Json::List(items) => if items@.len() == size && 0 <= at < size {
            Some(items@[at])
        } else {
            None
        },
        _ => field(value, key),
    }
}

/// The text of a field of a record.
pub open spec fn record_text(value: Json, size: int, at: int, key: Seq<char>) -> Option<Seq<char>> {
    match record_field(value, size, at, key) {
        Some(inner) => text_value(inner),
        None => None,
    }
}

/// The natural number of a field of a record.
pub open spec fn record_number(value: Json, size: int, at: int, key: Seq<char>) -> Option<nat> {
    match record_field(value, size, at, key) {
        Some(inner) => number_value(inner),
        None => None,
    }
}

/// The natural number of up to 64 bits that a value is.
pub open spec fn number_value(value: Json) -> Option<nat> {
    match value {
        Json::Number(text) => match text::parse_decimal(text@) {
            Some(n) if n <= u64::MAX => Some(n),
            _ => None,
        },
        _ => None,
    }
}

/// The natural number of a field.
pub open spec fn number_field(value: Json, key: Seq<char>) -> Option<nat> {
    match field(value, key) {
        Some(inner) => number_value(inner),
        None => None,
    }
}

/// Finds a key among the fields of an object.
pub fn find_key(fields: &Vec<(String, Json)>, key: &str) -> (r: Option<usize>)
    ensures
        match r {
            Some(i) => i < fields.len() && key_position(fields@, key@, 0) == Some(i as int)
                && fields@[i as int].0@ == key@,
            None => key_position(fields@, key@, 0) is None,
        },
{
    let mut i: usize = 0;
    while i < fields.len()
        invariant
            0 <= i <= fields.len(),
            key_position(fields@, key@, 0) == key_position(fields@, key@, i as int),
        decreases fields.len() - i,
    {
        if same_text(fields[i].0.as_str(), key) {
            return Some(i);
        }
        i += 1;
    }
    None
}

impl Json {
    /// The value of a field.
    pub fn get(&self, key: &str) -> (r: Option<&Json>)
        ensures
            match r {
                Some(value) => field(*self, key@) == Some(*value),
                None => field(*self, key@) is None,
            },
    {
        match self {
            Json::Object(fields) => match find_key(fields, key) {
                Some(i) => Some(&fields[i].1),
                None => None,
            },
            _ => None,
        }
    }

    /// The text that the value is.
    pub fn as_text(&self) -> (r: Option<&str>)
        ensures
            match r {
                Some(text) => text_value(*self) == Some(text@),
                None => text_value(*self) is None,
            },
    {
        match self {
            Json::Text(text) => Some(text.as_str()),
            _ => None,
        }
    }

    /// The text of a field.
    pub fn text_at(&self, key: &str) -> (r: Option<&str>)
        ensures
            match r {
                Some(text) => text_field(*self, key@) == Some(text@),
                None => text_field(*self, key@) is None,
            },
    {
        match self.get(key) {
            Some(value) => value.as_text(),
            None => None,
        }
    }

    /// The natural number that the value is.
    pub fn as_number(&self) -> (r: Option<u64>)
        ensures
            match r {
                Some(n) => number_value(*self) == Some(n as nat),
                None => number_value(*self) is None,
            },
    {
        match self {
            Json::Number(text) => parse_number(text.as_str()),
            _ => None,
        }
    }

    /// The value of a field of a record with `size` fields.
    pub fn record_at(&self, size: usize, at: usize, key: &str) -> (r: Option<&Json>)
        ensures
            match r {
                Some(value) => record_field(*self, size as int, at as int, key@) == Some(*value),
                None => record_field(*self, size as int, at as int, key@) is None,
            },
    {
        match self {
            Json::List(items) => if items.len() == size && at < size {
                Some(&items[at])
            } else {
                None
            },
            _ => self.get(key),
        }
    }

    /// The text of a field of a record.
    pub fn record_text_at(&self, size: usize, at: usize, key: &str) -> (r: Option<&str>)
        ensures
            match r {
                Some(text) => record_text(*self, size as int, at as int, key@) == Some(text@),
                None => record_text(*self, size as int, at as int, key@) is None,
            },
    {
        match self.record_at(size, at, key) {
            Some(value) => value.as_text(),
            None => None,
        }
    }

    /// The natural number of a field of a record.
    pub fn record_number_at(&self, size: usize, at: usize, key: &str) -> (r: Option<u64>)
        ensures
            match r {
                Some(n) => record_number(*self, size as int, at as int, key@) == Some(n as nat),
                None => record_number(*self, size as int, at as int, key@) is None,
            },
    {
        match self.record_at(size, at, key) {
            Some(value) => value.as_number(),
            None => None,
        }
    }

    /// The natural number of a field.
    pub fn number_at(&self, key: &str) -> (r: Option<u64>)
        ensures
            match r {
                Some(n) => number_field(*self, key@) == Some(n as nat),
                None => number_field(*self, key@) is None,
            },
    {
        match self.get(key) {
            Some(value) => value.as_number(),
            None => None,
        }
    }
}

/// The contents of a document.
pub enum JsonView {
    Null,
    Bool(bool),
    Number(Seq<char>),
    Text(Seq<char>),
    List(Seq<JsonView>),
    Object(Seq<(Seq<char>, JsonView)>),
}

impl View for Json {
    type V = JsonView;

    open spec fn view(&self) -> JsonView {
        json_view(*self)
    }
}

/// The contents of a list of fields.
pub open spec fn field_views(list: Seq<(String, Json)>) -> Seq<(Seq<char>, JsonView)> {
    list.map_values(|f: (String, Json)| (f.0@, f.1@))
}

/// The contents of a document.
pub open spec fn json_view(value: Json) -> JsonView
    decreases value,
{
    match value {
        Json::Null => JsonView::Null,
        Json::Bool(b) => JsonView::Bool(b),
        Json::Number(n) => JsonView::Number(n@),
        Json::Text(t) => JsonView::Text(t@),
        Json::List(items) => JsonView::List(
            Seq::new(
                items@.len(),
                |i: int|
                    if 0 <= i < items@.len() {
                        json_view(items@[i])
                    } else {
                        JsonView::Null
                    },
            ),
        ),
        Json::Object(fields) => JsonView::Object(
            Seq::new(
                fields@.len(),
                |i: int|
                    if 0 <= i < fields@.len() {
                        (fields@[i].0@, json_view(fields@[i].1))
                    } else {
                        (Seq::empty(), JsonView::Null)
                    },
            ),
        ),
    }
}

impl Json {
    /// A second value with the same contents.
    pub fn copy(&self) -> (r: Self)
        ensures
            r@ == self@,
        decreases *self,
    {
        match self {
            Json::Null => Json::Null,
            Json::Bool(flag) => Json::Bool(*flag),
            Json::Number(number) => Json::Number(number.clone()),
            Json::Text(text) => Json::Text(text.clone()),
            Json::List(items) => {
                let mut list: Vec<Json> = Vec::new();
                let mut i: usize = 0;
                while i < items.len()
                    invariant
                        0 <= i <= items.len(),
                        *self == Json::List(*items),
                        list.len() == i,
                        forall|j: int| 0 <= j < i ==> (#[trigger] list@[j])@ == items@[j]@,
                    decreases items.len() - i,
                {
                    assert(decreases_to!(*self => self->List_0@[i as int]));
                    list.push(items[i].copy());
                    i += 1;
                }
                let r = Json::List(list);
                assert(r@->List_0 =~= self@->List_0);
                r
            },
            Json::Object(fields) => {
                let mut list: Vec<(String, Json)> = Vec::new();
                let mut i: usize = 0;
                while i < fields.len()
                    invariant
                        0 <= i <= fields.len(),
                        *self == Json::Object(*fields),
                        list.len() == i,
                        forall|j: int|
                            0 <= j < i ==> (#[trigger] list@[j]).0@ == fields@[j].0@ && list@[j].1@
                                == fields@[j].1@,
                    decreases fields.len() - i,
                {
                    assert(decreases_to!(*self => self->Object_0@[i as int].1));
                    list.push((fields[i].0.clone(), fields[i].1.copy()));
                    i += 1;
                }
                let r = Json::Object(list);
                assert(r@->Object_0 =~= self@->Object_0);
                r
            },
        }
    }
}

impl Clone for Json {
    fn clone(&self) -> (r: Self)
        ensures
            r@ == self@,
    {
        self.copy()
    }
}

/// A second list with the same fields.
pub fn copy_fields(fields: &Vec<(String, Json)>) -> (r: Vec<(String, Json)>)
    ensures
        field_views(r@) == field_views(fields@),
{
    let mut r: Vec<(String, Json)> = Vec::new();
    let mut i: usize = 0;
    while i < fields.len()
        invariant
            0 <= i <= fields.len(),
            r.len() == i,
            forall|j: int|
                0 <= j < i ==> (#[trigger] r@[j]).0@ == fields@[j].0@ && r@[j].1@ == fields@[j].1@,
        decreases fields.len() - i,
    {
        r.push((fields[i].0.clone(), fields[i].1.copy()));
        i += 1;
    }
    assert(field_views(r@) =~= field_views(fields@));
    r
}

} // verus!
