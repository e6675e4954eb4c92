//! JSON values, and their reading and writing as text.
use serde_json::Value;
use vstd::prelude::*;

use crate::error::Error;
#[allow(unused_imports)]
use crate::error::{outcome, ErrorView};
#[allow(unused_imports)]
use crate::ordered::{find, lemma_find_at, lemma_put_at, ordered, put, put_keeps_order};
use crate::text::{less, owned, same};
#[allow(unused_imports)]
use crate::text::text_less;

verus! {

/// A JSON number. One that is not an integer is kept as the text that writes it.
#[derive(Debug, PartialEq, Eq)]
pub enum JsonNumber {
    PosInt(u64),
    NegInt(i64),
    Decimal(String),
}

/// A JSON value.
#[derive(Debug, PartialEq, Eq)]
pub enum Json {
    Null,
    Bool(bool),
    Number(JsonNumber),
    Text(String),
    List(Vec<Json>),
    Object(JsonObject),
}

/// The members of a JSON object, in the order of their names.
#[derive(Debug, PartialEq, Eq)]
pub struct JsonObject {
    pub entries: Vec<(String, Json)>,
}

/// What a JSON number is.
pub enum NumberView {
    PosInt(u64),
    NegInt(i64),
    Decimal(Seq<char>),
}

/// What a JSON value is.
pub enum JsonView {
    Null,
    Bool(bool),
    Number(NumberView),
    Text(Seq<char>),
    List(Seq<JsonView>),
    Object(Seq<(Seq<char>, JsonView)>),
}

/// What the members of a JSON object are.
pub type ObjectView = Seq<(Seq<char>, JsonView)>;

impl View for JsonNumber {
    type V = NumberView;

    open spec fn view(&self) -> NumberView {
        match self {
            JsonNumber::PosInt(n) => NumberView::PosInt(*n),
            JsonNumber::NegInt(n) => NumberView::NegInt(*n),
            JsonNumber::Decimal(text) => NumberView::Decimal(text@),
        }
    }
}

/// What a JSON value is.
pub open spec fn json_view(json: Json) -> JsonView
    decreases json,
{
    match json {
        Json::Null => JsonView::Null,
        Json::Bool(b) => JsonView::Bool(b),
        Json::Number(n) => JsonView::Number(n@),
        Json::Text(text) => JsonView::Text(text@),
        Json::List(list) => JsonView::List(list_view(list@)),
        Json::Object(object) => JsonView::Object(entries_view(object.entries@)),
    }
}

/// What the elements of a JSON list are.
pub open spec fn list_view(list: Seq<Json>) -> Seq<JsonView>
    decreases list,
{
    Seq::new(
        list.len(),
        |i: int|
            if 0 <= i < list.len() {
                json_view(list[i])
            } else {
                JsonView::Null
            },
    )
}

/// What the members of a JSON object are.
pub open spec fn entries_view(entries: Seq<(String, Json)>) -> ObjectView
    decreases entries,
{
    Seq::new(
        entries.len(),
        |i: int|
            if 0 <= i < entries.len() {
                (entries[i].0@, json_view(entries[i].1))
            } else {
                (Seq::empty(), JsonView::Null)
            },
    )
}

impl View for Json {
    type V = JsonView;

    open spec fn view(&self) -> JsonView {
        json_view(*self)
    }
}

impl DeepView for Json {
    type V = JsonView;

    open spec fn deep_view(&self) -> JsonView {
        json_view(*self)
    }
}

impl View for JsonObject {
    type V = ObjectView;

    open spec fn view(&self) -> ObjectView {
        entries_view(self.entries@)
    }
}

impl DeepView for JsonObject {
    type V = ObjectView;

    open spec fn deep_view(&self) -> ObjectView {
        entries_view(self.entries@)
    }
}

/// The two ways to look at a list of JSON values agree.
pub broadcast proof fn lemma_list_view(list: Vec<Json>)
    ensures
        #[trigger] list.deep_view() == list_view(list@),
{
    assert(list.deep_view() =~= list_view(list@));
}

/// The text in a value, where it is a text.
pub open spec fn as_text(json: JsonView) -> Option<Seq<char>> {
    match json {
        JsonView::Text(text) => Some(text),
        _ => None,
    }
}

/// The number in a value, where it is an integer from 0 up.
pub open spec fn as_number(json: JsonView) -> Option<u64> {
    match json {
        JsonView::Number(NumberView::PosInt(n)) => Some(n),
        _ => None,
    }
}

/// The elements of a value, where it is a list.
pub open spec fn as_list(json: JsonView) -> Option<Seq<JsonView>> {
    match json {
        JsonView::List(list) => Some(list),
        _ => None,
    }
}

/// The members of a value, where it is an object.
pub open spec fn as_object(json: JsonView) -> Option<ObjectView> {
    match json {
        JsonView::Object(object) => Some(object),
        _ => None,
    }
}

/// The member `key` of a value, where it is an object that has one.
pub open spec fn field(json: JsonView, key: Seq<char>) -> Option<JsonView> {
    match json {
        JsonView::Object(object) => find(object, key),
        _ => None,
    }
}

/// The text of the member `key`, where there is one and it is a text.
pub open spec fn text_member(object: ObjectView, key: Seq<char>) -> Option<Seq<char>> {
    match find(object, key) {
        Some(value) => as_text(value),
        None => None,
    }
}

/// The text of the member `key` of a value.
pub open spec fn text_field(json: JsonView, key: Seq<char>) -> Option<Seq<char>> {
    match field(json, key) {
        Some(value) => as_text(value),
        None => None,
    }
}

/// The number of the member `key` of a value.
pub open spec fn number_field(json: JsonView, key: Seq<char>) -> Option<u64> {
    match field(json, key) {
        Some(value) => as_number(value),
        None => None,
    }
}

/// The text, or no text at all where there is none.
pub open spec fn or_empty(text: Option<Seq<char>>) -> Seq<char> {
    match text {
        Some(text) => text,
        None => Seq::empty(),
    }
}

/// The object with one more member.
pub open spec fn with(object: ObjectView, key: Seq<char>, value: JsonView) -> ObjectView {
    put(object, key, value)
}

/// The object without members.
pub open spec fn no_members() -> ObjectView {
    Seq::empty()
}

/// A text value.
pub open spec fn text_json(text: Seq<char>) -> JsonView {
    JsonView::Text(text)
}

/// An integer value.
pub open spec fn number_json(n: u64) -> JsonView {
    JsonView::Number(NumberView::PosInt(n))
}

impl Clone for JsonNumber {
    fn clone(&self) -> (copy: Self)
        ensures
            copy@ == self@,
    {
        match self {
            JsonNumber::PosInt(n) => JsonNumber::PosInt(*n),
            JsonNumber::NegInt(n) => JsonNumber::NegInt(*n),
            JsonNumber::Decimal(text) => JsonNumber::Decimal(text.clone()),
        }
    }
}

impl Clone for Json {
    fn clone(&self) -> (copy: Self)
        ensures
            copy@ == self@,
        decreases self,
    {
        match self {
            Json::Null => Json::Null,
            Json::Bool(b) => Json::Bool(*b),
            Json::Number(n) => Json::Number(n.clone()),
            Json::Text(text) => Json::Text(text.clone()),
            Json::List(list) => Json::List(clone_list(list)),
            Json::Object(object) => Json::Object(
                JsonObject { entries: clone_entries(&object.entries) },
            ),
        }
    }
}

/// A copy of a list of values.
pub fn clone_list(list: &Vec<Json>) -> (out: Vec<Json>)
    ensures
        list_view(out@) == list_view(list@),
        out.deep_view() == list.deep_view(),
    decreases list@,
{
    broadcast use lemma_list_view;

    let mut out: Vec<Json> = Vec::new();
    for i in 0..list.len()
        invariant
            out@.len() == i,
            forall|k: int| 0 <= k < i ==> (#[trigger] out@[k])@ == list@[k]@,
    {
        let copy = list[i].clone();
        out.push(copy);
    }
    assert(list_view(out@) =~= list_view(list@));
    out
}

fn clone_entries(entries: &Vec<(String, Json)>) -> (out: Vec<(String, Json)>)
    ensures
        entries_view(out@) == entries_view(entries@),
    decreases entries@,
{
    let mut out: Vec<(String, Json)> = Vec::new();
    for i in 0..entries.len()
        invariant
            out@.len() == i,
            forall|k: int|
                0 <= k < i ==> (#[trigger] out@[k]).0@ == entries@[k].0@ && out@[k].1@
                    == entries@[k].1@,
    {
        let copy = entries[i].1.clone();
        out.push((entries[i].0.clone(), copy));
    }
    assert(entries_view(out@) =~= entries_view(entries@));
    out
}

impl Clone for JsonObject {
    fn clone(&self) -> (copy: Self)
        ensures
            copy@ == self@,
            copy.deep_view() == self.deep_view(),
    {
        JsonObject { entries: clone_entries(&self.entries) }
    }
}

/// A copy of a list of objects.
pub fn clone_objects(objects: &Vec<JsonObject>) -> (out: Vec<JsonObject>)
    ensures
        out.deep_view() == objects.deep_view(),
{
    let mut out: Vec<JsonObject> = Vec::new();
    for i in 0..objects.len()
        invariant
            out@.len() == i,
            forall|k: int| 0 <= k < i ==> (#[trigger] out@[k])@ == objects@[k]@,
    {
        out.push(objects[i].clone());
    }
    assert(out.deep_view() =~= objects.deep_view());
    out
}

/// Puts copies of the objects behind the others.
pub fn extend_objects(objects: &mut Vec<JsonObject>, more: &Vec<JsonObject>)
    ensures
        final(objects).deep_view() == old(objects).deep_view() + more.deep_view(),
{
    let ghost before = objects.deep_view();
    for i in 0..more.len()
        invariant
            before == old(objects).deep_view(),
            objects.deep_view() =~= before + more.deep_view().take(i as int),
    {
        let ghost earlier = objects.deep_view();
        let copy = more[i].clone();
        objects.push(copy);
        assert(objects.deep_view() =~= earlier.push(copy@));
        assert(more.deep_view()[i as int] == copy@);
    }
    assert(more.deep_view().take(more.deep_view().len() as int) =~= more.deep_view());
}

impl JsonObject {
    /// The names of the members stand in order, each once.
    pub open spec fn well_formed(&self) -> bool {
        ordered(self@)
    }

    /// The object without members.
    pub fn new() -> (out: Self)
        ensures
            out@ == no_members(),
            out.well_formed(),
    {
        let out = JsonObject { entries: Vec::new() };
        assert(out@ =~= no_members());
        out
    }

    /// Whether there are no members.
    pub fn is_empty(&self) -> (yes: bool)
        ensures
            yes == (self@.len() == 0),
    {
        self.entries.len() == 0
    }

    /// The member `key`.
    pub fn get(&self, key: &str) -> (value: Option<&Json>)
        ensures
            value.deep_view() == find(self@, key@),
    {
        let ghost all = self@;
        for i in 0..self.entries.len()
            invariant
                all == self@,
                all.len() == self.entries@.len(),
                forall|j: int| 0 <= j < i ==> (#[trigger] all[j]).0 != key@,
        {
            if same(self.entries[i].0.as_str(), key) {
                proof {
                    assert(all[i as int].0 == key@);
                    lemma_find_at(all, key@, i as int);
                }
                return Some(&self.entries[i].1);
            }
            assert(all[i as int].0 != key@);
        }
        proof {
            lemma_find_at(all, key@, all.len() as int);
        }
        None
    }

    /// The text of the member `key`.
    pub fn get_text(&self, key: &str) -> (text: Option<&str>)
        ensures
            text.deep_view() == text_member(self@, key@),
    {
        match self.get(key) {
            Some(value) => value.as_str(),
            None => None,
        }
    }

    /// Whether the member `key` is the text `text`.
    pub fn has_text(&self, key: &str, text: &str) -> (yes: bool)
        ensures
            yes == (text_member(self@, key@) == Some(text@)),
    {
        match self.get_text(key) {
            Some(found) => same(found, text),
            None => false,
        }
    }

    /// Puts a value under a name.
    pub fn insert(&mut self, key: &str, value: Json)
        ensures
            final(self)@ == with(old(self)@, key@, value@),
            old(self).well_formed() ==> final(self).well_formed(),
    {
        let ghost all = self@;
        let mut at: usize = 0;
        while at < self.entries.len() && !same(self.entries[at].0.as_str(), key) && !less(
            key,
            self.entries[at].0.as_str(),
        )
            invariant
                at <= self.entries@.len(),
                all == self@,
                self@ == old(self)@,
                forall|j: int|
                    0 <= j < at ==> (#[trigger] all[j]).0 != key@ && !text_less(key@, all[j].0),
            decreases self.entries@.len() - at,
        {
            assert(all[at as int].0 == self.entries@[at as int].0@);
            at += 1;
        }
        proof {
            if at < self.entries@.len() {
                assert(all[at as int].0 == self.entries@[at as int].0@);
            }
            lemma_put_at(all, key@, value@, at as int);
            if ordered(all) {
                put_keeps_order(all, key@, value@);
            }
        }
        let ghost new_value = value@;
        if at < self.entries.len() && same(self.entries[at].0.as_str(), key) {
            self.entries[at] = (owned(key), value);
            assert(self@ =~= all.update(at as int, (key@, new_value)));
        } else {
            self.entries.insert(at, (owned(key), value));
            assert(self@ =~= all.insert(at as int, (key@, new_value)));
        }
    }

    /// The object with one more member.
    pub fn with(self, key: &str, value: Json) -> (out: Self)
        ensures
            out@ == with(self@, key@, value@),
            self.well_formed() ==> out.well_formed(),
    {
        let mut out = self;
        out.insert(key, value);
        out
    }

    /// The object with one more member, a text.
    pub fn with_text(self, key: &str, value: &str) -> (out: Self)
        ensures
            out@ == with(self@, key@, text_json(value@)),
            self.well_formed() ==> out.well_formed(),
    {
        self.with(key, Json::text(value))
    }
}

impl Json {
    /// A text.
    pub fn text(text: &str) -> (out: Self)
        ensures
            out@ == text_json(text@),
    {
        Json::Text(owned(text))
    }

    /// An integer.
    pub fn number(n: u64) -> (out: Self)
        ensures
            out@ == number_json(n),
    {
        Json::Number(JsonNumber::PosInt(n))
    }

    /// A list.
    pub fn list(list: Vec<Json>) -> (out: Self)
        ensures
            out@ == JsonView::List(list.deep_view()),
    {
        broadcast use lemma_list_view;

        Json::List(list)
    }

    /// A list of one value.
    pub fn list_of(value: Json) -> (out: Self)
        ensures
            out@ == JsonView::List(seq![value@]),
    {
        let mut list: Vec<Json> = Vec::new();
        list.push(value);
        assert(list_view(list@) =~= seq![value@]);
        Json::List(list)
    }

    /// An object.
    pub fn object(object: JsonObject) -> (out: Self)
        ensures
            out@ == JsonView::Object(object@),
    {
        Json::Object(object)
    }

    /// The text, where it is a text.
    pub fn as_str(&self) -> (text: Option<&str>)
        ensures
            text.deep_view() == as_text(self@),
    {
        match self {
            Json::Text(text) => Some(text.as_str()),
            _ => None,
        }
    }

    /// The number, where it is an integer from 0 up.
    pub fn as_u64(&self) -> (n: Option<u64>)
        ensures
            n == as_number(self@),
    {
        match self {
            Json::Number(JsonNumber::PosInt(n)) => Some(*n),
            _ => None,
        }
    }

    /// The elements, where it is a list.
    pub fn as_array(&self) -> (list: Option<&Vec<Json>>)
        ensures
            list.deep_view() == as_list(self@),
    {
        broadcast use lemma_list_view;

        match self {
            Json::List(list) => Some(list),
            _ => None,
        }
    }

    /// The members, where it is an object.
    pub fn as_object(&self) -> (object: Option<&JsonObject>)
        ensures
            object.deep_view() == as_object(self@),
    {
        match self {
            Json::Object(object) => Some(object),
            _ => None,
        }
    }

    /// The member `key`, where it is an object that has one.
    pub fn get(&self, key: &str) -> (value: Option<&Json>)
        ensures
            value.deep_view() == field(self@, key@),
    {
        match self {
            Json::Object(object) => object.get(key),
            _ => None,
        }
    }

    /// The text of the member `key`.
    pub fn get_text(&self, key: &str) -> (text: Option<&str>)
        ensures
            text.deep_view() == text_field(self@, key@),
    {
        match self.get(key) {
            Some(value) => value.as_str(),
            None => None,
        }
    }

    /// Whether the member `key` is the text `text`.
    pub fn has_text(&self, key: &str, text: &str) -> (yes: bool)
        ensures
            yes == (text_field(self@, key@) == Some(text@)),
    {
        match self.get_text(key) {
            Some(found) => same(found, text),
            None => false,
        }
    }

    /// The number of the member `key`.
    pub fn get_u64(&self, key: &str) -> (n: Option<u64>)
        ensures
            n == number_field(self@, key@),
    {
        match self.get(key) {
            Some(value) => value.as_u64(),
            None => None,
        }
    }

    /// The value of the element at `at`, where it is a list that has one, and
    /// null where it is not.
    pub fn at(&self, at: usize) -> (value: &Json)
        ensures
            value@ == match self@ {
                JsonView::List(list) if at < list.len() => list[at as int],
                _ => JsonView::Null,
            },
    {
        match self {
            Json::List(list) => if at < list.len() {
                &list[at]
            } else {
                &Json::Null
            },
            _ => &Json::Null,
        }
    }

    /// The member `key`, and null where there is none.
    pub fn member(&self, key: &str) -> (value: &Json)
        ensures
            value@ == match field(self@, key@) {
                Some(value) => value,
                None => JsonView::Null,
            },
    {
        match self.get(key) {
            Some(value) => value,
            None => &Json::Null,
        }
    }
}

/// `serde_json::Value`, the value that the outside reader and writer work on.
#[verifier::external_type_specification]
#[verifier::external_body]
pub struct ExValue(Value);

/// The JSON value that a `serde_json::Value` holds, variant by variant. Nothing
/// is claimed of it.
#[verifier::external_body]
fn json_of_value(value: Value) -> Json {
    match value {
        Value::Null => Json::Null,
        Value::Bool(b) => Json::Bool(b),
        Value::Number(n) => match (n.as_u64(), n.as_i64()) {
            (Some(n), _) => Json::Number(JsonNumber::PosInt(n)),
            (None, Some(n)) => Json::Number(JsonNumber::NegInt(n)),
            _ => Json::Number(JsonNumber::Decimal(n.to_string())),
        },
        Value::String(text) => Json::Text(text),
        Value::Array(list) => Json::List(list.into_iter().map(json_of_value).collect()),
        Value::Object(map) => Json::Object(JsonObject {
            entries: map.into_iter().map(|(key, value)| (key, json_of_value(value))).collect(),
        }),
    }
}

/// The `serde_json::Value` that holds a JSON value, variant by variant. Nothing
/// is claimed of it.
#[verifier::external_body]
fn value_of_json(json: &Json) -> Value {
    match json {
        Json::Null => Value::Null,
        Json::Bool(b) => Value::Bool(*b),
        Json::Number(JsonNumber::PosInt(n)) => Value::from(*n),
        Json::Number(JsonNumber::NegInt(n)) => Value::from(*n),
        Json::Number(JsonNumber::Decimal(text)) => text.parse().map_or(Value::Null, Value::Number),
        Json::Text(text) => Value::String(text.clone()),
        Json::List(list) => list.iter().map(value_of_json).collect(),
        Json::Object(object) => {
            object.entries.iter().map(|(key, value)| (key.clone(), value_of_json(value))).collect()
        },
    }
}

/// What `serde_json::from_str` reads out of a text: a value, or the text of its
/// error.
pub uninterp spec fn parsed_json(text: Seq<char>) -> Result<JsonView, Seq<char>>;

/// `serde_json::from_str`: the JSON value that the text writes, or the message of
/// the error where it writes none.
#[verifier::external_body]
pub(crate) fn parse_json(text: &str) -> (out: Result<Json, String>)
    ensures
        match out {
            Ok(json) => parsed_json(text@) == Ok::<JsonView, Seq<char>>(json@),
            Err(message) => parsed_json(text@) == Err::<JsonView, Seq<char>>(message@),
        },
{
    serde_json::from_str(text).map(json_of_value).map_err(|error| error.to_string())
}

/// What `serde_json::from_slice` reads out of bytes, where it reads a value.
pub uninterp spec fn parsed_json_bytes(bytes: Seq<u8>) -> Option<JsonView>;

/// `serde_json::from_slice`: the JSON value that the bytes write, or nothing
/// where they write none.
#[verifier::external_body]
pub(crate) fn parse_json_bytes(bytes: &[u8]) -> (out: Option<Json>)
    ensures
        out.deep_view() == parsed_json_bytes(bytes@),
{
    serde_json::from_slice(bytes).ok().map(json_of_value)
}

/// The text that `serde_json` writes for a value.
pub uninterp spec fn json_text(json: JsonView) -> Seq<char>;

/// `serde_json::Value::to_string`: the value as compact JSON text.
#[verifier::external_body]
pub(crate) fn json_text_of(json: &Json) -> (text: String)
    ensures
        text@ == json_text(json@),
{
    value_of_json(json).to_string()
}

/// The JSON value that a text writes.
pub open spec fn read_json(text: Seq<char>) -> Result<JsonView, ErrorView> {
    match parsed_json(text) {
        Ok(json) => Ok(json),
        Err(message) => Err(ErrorView::Json(message)),
    }
}

impl Json {
    /// The JSON value that a text writes.
    pub fn from_text(text: &str) -> (json: Result<Json, Error>)
        ensures
            outcome(json) == read_json(text@),
    {
        match parse_json(text) {
            Ok(json) => Ok(json),
            Err(message) => Err(Error::Json(message)),
        }
    }

    /// The value as compact JSON text.
    pub fn to_text(&self) -> (text: String)
        ensures
            text@ == json_text(self@),
    {
        json_text_of(self)
    }
}

} // verus!
