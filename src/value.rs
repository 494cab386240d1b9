use vstd::prelude::*;

verus! {

broadcast use vstd::std_specs::vec::group_vec_axioms, vstd::seq::group_seq_axioms;

/// The date part of a timestamp, as the configuration file wrote it.
#[derive(Clone, Copy, Debug, PartialEq, Eq, Structural)]
pub struct TimestampDate {
    pub year: u16,
    pub month: u8,
    pub day: u8,
}

/// The time-of-day part of a timestamp.
#[derive(Clone, Copy, Debug, PartialEq, Eq, Structural)]
pub struct TimestampTime {
    pub hour: u8,
    pub minute: u8,
    pub second: Option<u8>,
    pub nanosecond: Option<u32>,
}

/// The UTC offset of a timestamp: `Z`, or a number of minutes east of UTC.
#[derive(Clone, Copy, Debug, PartialEq, Eq, Structural)]
pub enum TimestampOffset {
    Z,
    Custom { minutes: i16 },
}

/// A configuration timestamp: a date, a time, or both, with an optional offset.
#[derive(Clone, Copy, Debug, PartialEq, Eq, Structural)]
pub struct Timestamp {
    pub date: Option<TimestampDate>,
    pub time: Option<TimestampTime>,
    pub offset: Option<TimestampOffset>,
}

/// A parsed configuration value.
///
/// A float is held as its JSON number text, or `None` where JSON has no
/// number for it (NaN and the infinities).
#[derive(Debug)]
pub enum StructuredValue {
    String(String),
    Integer(i64),
    Float(Option<String>),
    Boolean(bool),
    Array(Vec<StructuredValue>),
    Table(Vec<(String, StructuredValue)>),
    Timestamp(Timestamp),
}

/// A JSON number: an integer, or the text of a finite float.
#[derive(Debug)]
pub enum JsonNumber {
    Integer(i64),
    Float(String),
}

/// A JSON value; the entries of an object keep their order.
#[derive(Debug)]
pub enum JsonValue {
    String(String),
    Number(JsonNumber),
    Bool(bool),
    Array(Vec<JsonValue>),
    Object(Vec<(String, JsonValue)>),
    Null,
}

/// The mathematical model of a `StructuredValue`.
pub enum StructuredModel {
    String(Seq<char>),
    Integer(int),
    Float(Option<Seq<char>>),
    Boolean(bool),
    Array(Seq<StructuredModel>),
    Table(Seq<(Seq<char>, StructuredModel)>),
    Timestamp(Timestamp),
}

/// The mathematical model of a `JsonValue`.
pub enum JsonModel {
    String(Seq<char>),
    Integer(int),
    Float(Seq<char>),
    Bool(bool),
    Array(Seq<JsonModel>),
    Object(Seq<(Seq<char>, JsonModel)>),
    Null,
}

/// The models of the items of an array, in order.
pub open spec fn items_model(items: &Vec<StructuredValue>) -> Seq<StructuredModel>
    decreases items,
{
    Seq::new(
        items.len() as nat,
        |i: int|
            if 0 <= i < items.len() {
                items[i].view()
            } else {
                StructuredModel::Boolean(false)
            },
    )
}

/// The models of the entries of a table, in order.
pub open spec fn entries_model(entries: &Vec<(String, StructuredValue)>) -> Seq<
    (Seq<char>, StructuredModel),
>
    decreases entries,
{
    Seq::new(
        entries.len() as nat,
        |i: int|
            if 0 <= i < entries.len() {
                (entries[i].0@, entries[i].1.view())
            } else {
                (Seq::empty(), StructuredModel::Boolean(false))
            },
    )
}

impl View for StructuredValue {
    type V = StructuredModel;

    open spec fn view(&self) -> StructuredModel
        decreases self,
    {
        match self {
            StructuredValue::String(s) => StructuredModel::String(s@),
            StructuredValue::Integer(i) => StructuredModel::Integer(*i as int),
            StructuredValue::Float(f) => StructuredModel::Float(
                match f {
                    Some(t) => Some(t@),
                    None => None,
                },
            ),
            StructuredValue::Boolean(b) => StructuredModel::Boolean(*b),
            StructuredValue::Array(items) => StructuredModel::Array(items_model(items)),
            StructuredValue::Table(entries) => StructuredModel::Table(entries_model(entries)),
            StructuredValue::Timestamp(t) => StructuredModel::Timestamp(*t),
        }
    }
}

/// The models of the items of a JSON array, in order.
pub open spec fn json_items_model(items: &Vec<JsonValue>) -> Seq<JsonModel>
    decreases items,
{
    Seq::new(
        items.len() as nat,
        |i: int|
            if 0 <= i < items.len() {
                items[i].view()
            } else {
                JsonModel::Null
            },
    )
}

/// The models of the entries of a JSON object, in order.
pub open spec fn json_entries_model(entries: &Vec<(String, JsonValue)>) -> Seq<(Seq<char>, JsonModel)>
    decreases entries,
{
    Seq::new(
        entries.len() as nat,
        |i: int|
            if 0 <= i < entries.len() {
                (entries[i].0@, entries[i].1.view())
            } else {
                (Seq::empty(), JsonModel::Null)
            },
    )
}

impl View for JsonValue {
    type V = JsonModel;

    open spec fn view(&self) -> JsonModel
        decreases self,
    {
        match self {
            JsonValue::String(s) => JsonModel::String(s@),
            JsonValue::Number(JsonNumber::Integer(i)) => JsonModel::Integer(*i as int),
            JsonValue::Number(JsonNumber::Float(t)) => JsonModel::Float(t@),
            JsonValue::Bool(b) => JsonModel::Bool(*b),
            JsonValue::Array(items) => JsonModel::Array(json_items_model(items)),
            JsonValue::Object(entries) => JsonModel::Object(json_entries_model(entries)),
            JsonValue::Null => JsonModel::Null,
        }
    }
}

pub broadcast proof fn lemma_items_model(items: &Vec<StructuredValue>)
    ensures
        #[trigger] items_model(items).len() == items.len(),
        forall|i: int| 0 <= i < items.len() ==> #[trigger] items_model(items)[i] == items[i]@,
{
}

pub broadcast proof fn lemma_entries_model(entries: &Vec<(String, StructuredValue)>)
    ensures
        #[trigger] entries_model(entries).len() == entries.len(),
        forall|i: int|
            0 <= i < entries.len() ==> #[trigger] entries_model(entries)[i] == (
                entries[i].0@,
                entries[i].1@,
            ),
{
}

pub broadcast proof fn lemma_json_items_model(items: &Vec<JsonValue>)
    ensures
        #[trigger] json_items_model(items).len() == items.len(),
        forall|i: int| 0 <= i < items.len() ==> #[trigger] json_items_model(items)[i] == items[i]@,
{
}

pub broadcast proof fn lemma_json_entries_model(entries: &Vec<(String, JsonValue)>)
    ensures
        #[trigger] json_entries_model(entries).len() == entries.len(),
        forall|i: int|
            0 <= i < entries.len() ==> #[trigger] json_entries_model(entries)[i] == (
                entries[i].0@,
                entries[i].1@,
            ),
{
}

pub broadcast group group_value_models {
    lemma_items_model,
    lemma_entries_model,
    lemma_json_items_model,
    lemma_json_entries_model,
}

} // verus!
