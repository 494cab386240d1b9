use vstd::prelude::*;

use crate::release::Context;
use crate::text::{decimal, lemma_replaced_absent, occurs_in, replace_all, replaced, zero_padded};
use crate::value::{
    entries_model, group_value_models, items_model, json_entries_model, json_items_model, JsonModel, JsonNumber, JsonValue, StructuredModel, StructuredValue, Timestamp,
    TimestampDate, TimestampOffset, TimestampTime,
};

verus! {

broadcast use vstd::std_specs::vec::group_vec_axioms, vstd::seq::group_seq_axioms, group_value_models;

/// Why a value could not be converted.
#[derive(Debug, PartialEq, Eq, Structural)]
pub enum RenderError {
    /// A float that JSON cannot hold: NaN or an infinity.
    InvalidNumber,
}

/// The message of an invalid number.
pub open spec fn invalid_number_message() -> Seq<char> {
    "Invalid number: JSON holds no NaN or infinite float"@
}

impl RenderError {
    /// The error as a message for the user.
    pub fn message(&self) -> (r: String)
        ensures
            r@ == invalid_number_message(),
    {
        proof {
            reveal_strlit("Invalid number: JSON holds no NaN or infinite float");
        }
        "Invalid number: JSON holds no NaN or infinite float".to_owned()
    }
}

pub open spec fn now_version_token() -> Seq<char> {
    "{now-version}"@
}

pub open spec fn next_version_token() -> Seq<char> {
    "{next-version}"@
}

pub open spec fn tweet_token() -> Seq<char> {
    "{tweet}"@
}

pub open spec fn pvt_line_range_token() -> Seq<char> {
    "{pvt-line-range}"@
}

/// `s` with each placeholder replaced by the context's value for it, the
/// placeholders taken in the order of the table.
pub open spec fn interpolated(s: Seq<char>, ctx: Context) -> Seq<char> {
    let a = replaced(s, now_version_token(), ctx.current_version@);
    let b = replaced(a, next_version_token(), ctx.next_version@);
    let c = replaced(b, tweet_token(), ctx.tweet@);
    replaced(c, pvt_line_range_token(), ctx.pvt_line_range@)
}

/// `n` in decimal, with at least two digits.
pub open spec fn two_digits(n: int) -> Seq<char> {
    zero_padded(decimal(n as nat), 2)
}

/// `s` without its trailing zeros.
pub open spec fn without_trailing_zeros(s: Seq<char>) -> Seq<char>
    decreases s.len(),
{
    if s.len() > 0 && s.last() == '0' {
        without_trailing_zeros(s.drop_last())
    } else {
        s
    }
}

/// The fraction of a second that toml writes for `nanosecond`: nine digits
/// without their trailing zeros, or `0` where none are left.
pub open spec fn fraction_text(nanosecond: u32) -> Seq<char> {
    let t = without_trailing_zeros(zero_padded(decimal(nanosecond as nat), 9));
    if t.len() == 0 {
        seq!['0']
    } else {
        t
    }
}

/// The text that toml writes for a date: `YYYY-MM-DD`.
pub open spec fn timestamp_date_text(d: TimestampDate) -> Seq<char> {
    zero_padded(decimal(d.year as nat), 4) + seq!['-'] + two_digits(d.month as int) + seq!['-']
        + two_digits(d.day as int)
}

/// The text that toml writes for a time: `HH:MM`, then the seconds where
/// they or the nanoseconds are given, then the fraction where the
/// nanoseconds are given.
pub open spec fn timestamp_time_text(t: TimestampTime) -> Seq<char> {
    let seconds = match t.second {
        Some(s) => seq![':'] + two_digits(s as int),
        None => if t.nanosecond is Some {
            seq![':'] + two_digits(0)
        } else {
            Seq::empty()
        },
    };
    let fraction = match t.nanosecond {
        Some(n) => seq!['.'] + fraction_text(n),
        None => Seq::empty(),
    };
    two_digits(t.hour as int) + seq![':'] + two_digits(t.minute as int) + seconds + fraction
}

/// The text that toml writes for an offset: `Z`, or a sign with hours and
/// minutes.
pub open spec fn timestamp_offset_text(o: TimestampOffset) -> Seq<char> {
    match o {
        TimestampOffset::Z => seq!['Z'],
        TimestampOffset::Custom { minutes } => {
            let m = minutes as int;
            let a = if m < 0 {
                -m
            } else {
                m
            };
            seq![if m < 0 { '-' } else { '+' }] + two_digits(a / 60) + seq![':'] + two_digits(
                a % 60,
            )
        },
    }
}

/// The text that toml writes for a timestamp: its date, a `T` between date
/// and time where it has both, its time, its offset.
pub open spec fn timestamp_text(t: Timestamp) -> Seq<char> {
    let date = match t.date {
        Some(d) => timestamp_date_text(d),
        None => Seq::empty(),
    };
    let time = match t.time {
        Some(x) => (if t.date is Some {
            seq!['T']
        } else {
            Seq::empty()
        }) + timestamp_time_text(x),
        None => Seq::empty(),
    };
    let offset = match t.offset {
        Some(o) => timestamp_offset_text(o),
        None => Seq::empty(),
    };
    date + time + offset
}

/// Whether a timestamp's offset, if any, is in toml's range of
/// -1440 to 1439 minutes.
pub open spec fn offset_in_range(t: Timestamp) -> bool {
    match t.offset {
        Some(TimestampOffset::Custom { minutes }) => -1440 <= minutes < 1440,
        _ => true,
    }
}

/// Whether a value holds, at any depth, a timestamp whose offset is out of range.
pub open spec fn has_offset_out_of_range(v: StructuredModel) -> bool
    decreases v,
{
    match v {
        StructuredModel::Array(items) => exists|i: int|
            0 <= i < items.len() && has_offset_out_of_range(#[trigger] items[i]),
        StructuredModel::Table(entries) => exists|i: int|
            0 <= i < entries.len() && has_offset_out_of_range(#[trigger] entries[i].1),
        StructuredModel::Timestamp(t) => !offset_in_range(t),
        _ => false,
    }
}

/// Whether every timestamp in a value has its offset in range.
pub open spec fn offsets_in_range(v: StructuredModel) -> bool {
    !has_offset_out_of_range(v)
}

/// Whether a value holds, at any depth, a float that JSON cannot hold.
pub open spec fn has_invalid_number(v: StructuredModel) -> bool
    decreases v,
{
    match v {
        StructuredModel::Float(f) => f is None,
        StructuredModel::Array(items) => exists|i: int|
            0 <= i < items.len() && has_invalid_number(#[trigger] items[i]),
        StructuredModel::Table(entries) => exists|i: int|
            0 <= i < entries.len() && has_invalid_number(#[trigger] entries[i].1),
        _ => false,
    }
}

/// The JSON form of a value: strings interpolated, timestamps as text,
/// arrays and tables element by element in their order.
pub open spec fn converted(v: StructuredModel, ctx: Context) -> JsonModel
    decreases v,
{
    match v {
        StructuredModel::String(s) => JsonModel::String(interpolated(s, ctx)),
        StructuredModel::Integer(i) => JsonModel::Integer(i),
        StructuredModel::Float(f) => match f {
            Some(t) => JsonModel::Float(t),
            None => JsonModel::Null,
        },
        StructuredModel::Boolean(b) => JsonModel::Bool(b),
        StructuredModel::Array(items) => JsonModel::Array(
            Seq::new(
                items.len(),
                |i: int|
                    if 0 <= i < items.len() {
                        converted(items[i], ctx)
                    } else {
                        JsonModel::Null
                    },
            ),
        ),
        StructuredModel::Table(entries) => JsonModel::Object(
            Seq::new(
                entries.len(),
                |i: int|
                    if 0 <= i < entries.len() {
                        (entries[i].0, converted(entries[i].1, ctx))
                    } else {
                        (Seq::empty(), JsonModel::Null)
                    },
            ),
        ),
        StructuredModel::Timestamp(t) => JsonModel::String(timestamp_text(t)),
    }
}

/// Relies on the `Display` of toml's `Datetime` (and of its `Date`, `Time`
/// and `Offset`), built field by field from `t`. toml takes offsets of
/// -1440 to 1439 minutes only: outside that range its `Display` may overflow.
#[verifier::external_body]
fn format_timestamp(t: &Timestamp) -> (r: String)
    requires
        offset_in_range(*t),
    ensures
        r@ == timestamp_text(*t),
{
    let offset = t.offset.map(|o| match o {
        TimestampOffset::Z => toml::value::Offset::Z,
        TimestampOffset::Custom { minutes } => toml::value::Offset::Custom { minutes },
    });
    let date = t.date.map(|d| toml::value::Date { year: d.year, month: d.month, day: d.day });
    let time = t.time.map(
        |x| toml::value::Time { hour: x.hour, minute: x.minute, second: x.second, nanosecond: x.nanosecond },
    );
    toml::value::Datetime { date, time, offset }.to_string()
}

/// `text` with each placeholder replaced by the context's value for it.
pub fn interpolate(text: &str, ctx: &Context) -> (r: String)
    ensures
        r@ == interpolated(text@, *ctx),
{
    proof {
        reveal_strlit("{now-version}");
        reveal_strlit("{next-version}");
        reveal_strlit("{tweet}");
        reveal_strlit("{pvt-line-range}");
    }
    let a = replace_all(text, "{now-version}", ctx.current_version.as_str());
    let b = replace_all(a.as_str(), "{next-version}", ctx.next_version.as_str());
    let c = replace_all(b.as_str(), "{tweet}", ctx.tweet.as_str());
    replace_all(c.as_str(), "{pvt-line-range}", ctx.pvt_line_range.as_str())
}

/// A text with none of the placeholders comes out of interpolation unchanged.
pub proof fn lemma_interpolation_keeps_clean_text(s: Seq<char>, ctx: Context)
    requires
        !occurs_in(s, now_version_token()),
        !occurs_in(s, next_version_token()),
        !occurs_in(s, tweet_token()),
        !occurs_in(s, pvt_line_range_token()),
    ensures
        interpolated(s, ctx) == s,
{
    lemma_replaced_absent(s, now_version_token(), ctx.current_version@);
    lemma_replaced_absent(s, next_version_token(), ctx.next_version@);
    lemma_replaced_absent(s, tweet_token(), ctx.tweet@);
    lemma_replaced_absent(s, pvt_line_range_token(), ctx.pvt_line_range@);
}

/// Whether every timestamp in the value has its offset in toml's range.
pub fn offsets_valid(value: &StructuredValue) -> (r: bool)
    ensures
        r == offsets_in_range(value@),
    decreases value,
{
    match value {
        StructuredValue::Array(items) => {
            let mut i: usize = 0;
            assert(value@ == StructuredModel::Array(items_model(items)));
            while i < items.len()
                invariant
                    *value is Array,
                    value->Array_0 == *items,
                    value@ == StructuredModel::Array(items_model(items)),
                    i <= items.len(),
                    forall|j: int| 0 <= j < i ==> offsets_in_range(#[trigger] items_model(items)[j]),
                decreases items.len() - i,
            {
                proof {
                    assert(decreases_to!(*value => value->Array_0));
                    assert(decreases_to!(value->Array_0 => items[i as int]));
                }
                if !offsets_valid(&items[i]) {
                    assert(has_offset_out_of_range(items_model(items)[i as int]));
                    assert(value@->Array_0[i as int] == items_model(items)[i as int]);
                    assert(has_offset_out_of_range(value@));
                    return false;
                }
                i = i + 1;
            }
            true
        },
        StructuredValue::Table(entries) => {
            let mut i: usize = 0;
            assert(value@ == StructuredModel::Table(entries_model(entries)));
            while i < entries.len()
                invariant
                    *value is Table,
                    value->Table_0 == *entries,
                    value@ == StructuredModel::Table(entries_model(entries)),
                    i <= entries.len(),
                    forall|j: int|
                        0 <= j < i ==> offsets_in_range(#[trigger] entries_model(entries)[j].1),
                decreases entries.len() - i,
            {
                proof {
                    assert(decreases_to!(*value => value->Table_0));
                    assert(decreases_to!(value->Table_0 => entries[i as int]));
                    assert(decreases_to!(entries[i as int] => entries[i as int].1));
                }
                if !offsets_valid(&entries[i].1) {
                    assert(has_offset_out_of_range(entries_model(entries)[i as int].1));
                    assert(value@->Table_0[i as int] == entries_model(entries)[i as int]);
                    assert(has_offset_out_of_range(value@));
                    return false;
                }
                i = i + 1;
            }
            true
        },
        StructuredValue::Timestamp(t) => match t.offset {
            Some(TimestampOffset::Custom { minutes }) => -1440 <= minutes && minutes < 1440,
            _ => true,
        },
        _ => true,
    }
}

/// The message of a timestamp whose offset is out of range.
pub open spec fn invalid_offset_message() -> Seq<char> {
    "Invalid timestamp: offset out of range"@
}

/// The error for a timestamp whose offset is out of range, for the user.
pub fn invalid_offset() -> (r: String)
    ensures
        r@ == invalid_offset_message(),
{
    proof {
        reveal_strlit("Invalid timestamp: offset out of range");
    }
    "Invalid timestamp: offset out of range".to_owned()
}

/// Converts a configuration value to JSON; fails where a float has no JSON form.
pub fn convert(value: &StructuredValue, ctx: &Context) -> (r: Result<JsonValue, RenderError>)
    requires
        offsets_in_range(value@),
    ensures
        r is Err <==> has_invalid_number(value@),
        r is Err ==> r == Err::<JsonValue, RenderError>(RenderError::InvalidNumber),
        r is Ok ==> r->Ok_0@ == converted(value@, *ctx),
    decreases value,
{
    match value {
        StructuredValue::String(s) => Ok(JsonValue::String(interpolate(s.as_str(), ctx))),
        StructuredValue::Integer(i) => Ok(JsonValue::Number(JsonNumber::Integer(*i))),
        StructuredValue::Float(f) => match f {
            Some(t) => Ok(JsonValue::Number(JsonNumber::Float(t.clone()))),
            None => Err(RenderError::InvalidNumber),
        },
        StructuredValue::Boolean(b) => Ok(JsonValue::Bool(*b)),
        StructuredValue::Array(items) => {
            let mut out: Vec<JsonValue> = Vec::new();
            let mut i: usize = 0;
            assert(value@ == StructuredModel::Array(items_model(items)));
            while i < items.len()
                invariant
                    *value is Array,
                    value->Array_0 == *items,
                    value@ == StructuredModel::Array(items_model(items)),
                    offsets_in_range(value@),
                    i <= items.len(),
                    out.len() == i,
                    forall|j: int| 0 <= j < i ==> !has_invalid_number(#[trigger] items[j]@),
                    forall|j: int| 0 <= j < i ==> #[trigger] out[j]@ == converted(items[j]@, *ctx),
                decreases items.len() - i,
            {
                proof {
                    assert(decreases_to!(*value => value->Array_0));
                    assert(decreases_to!(value->Array_0 => items[i as int]));
                }
                assert(offsets_in_range(items_model(items)[i as int]));
                match convert(&items[i], ctx) {
                    Ok(j) => out.push(j),
                    Err(e) => {
                        assert(has_invalid_number(items_model(items)[i as int]));
                        assert(i < items_model(items).len());
                        assert(has_invalid_number(value@));
                        return Err(e);
                    },
                }
                i = i + 1;
            }
            let r = JsonValue::Array(out);
            assert(json_items_model(&out) =~= converted(value@, *ctx)->Array_0);
            Ok(r)
        },
        StructuredValue::Table(entries) => {
            let mut out: Vec<(String, JsonValue)> = Vec::new();
            let mut i: usize = 0;
            assert(value@ == StructuredModel::Table(entries_model(entries)));
            while i < entries.len()
                invariant
                    *value is Table,
                    value->Table_0 == *entries,
                    value@ == StructuredModel::Table(entries_model(entries)),
                    offsets_in_range(value@),
                    i <= entries.len(),
                    out.len() == i,
                    forall|j: int| 0 <= j < i ==> !has_invalid_number(#[trigger] entries[j].1@),
                    forall|j: int|
                        0 <= j < i ==> #[trigger] out[j].0@ == entries[j].0@ && out[j].1@
                            == converted(entries[j].1@, *ctx),
                decreases entries.len() - i,
            {
                proof {
                    assert(decreases_to!(*value => value->Table_0));
                    assert(decreases_to!(value->Table_0 => entries[i as int]));
                    assert(decreases_to!(entries[i as int] => entries[i as int].1));
                }
                assert(offsets_in_range(entries_model(entries)[i as int].1));
                match convert(&entries[i].1, ctx) {
                    Ok(j) => out.push((entries[i].0.clone(), j)),
                    Err(e) => {
                        assert(has_invalid_number(entries_model(entries)[i as int].1));
                        assert(i < entries_model(entries).len());
                        assert(has_invalid_number(value@));
                        return Err(e);
                    },
                }
                i = i + 1;
            }
            let r = JsonValue::Object(out);
            assert(json_entries_model(&out) =~= converted(value@, *ctx)->Object_0);
            Ok(r)
        },
        StructuredValue::Timestamp(t) => Ok(JsonValue::String(format_timestamp(t))),
    }
}

/// Whether a JSON value has the shape of a configuration value: arrays of
/// the same length, objects with the same keys in the same order, each
/// element alike, and no change of kind but a timestamp becoming a string.
pub open spec fn same_shape(v: StructuredModel, j: JsonModel) -> bool
    decreases v,
{
    match v {
        StructuredModel::String(_) => j is String,
        StructuredModel::Integer(i) => j == JsonModel::Integer(i),
        StructuredModel::Float(_) => j is Float,
        StructuredModel::Boolean(b) => j == JsonModel::Bool(b),
        StructuredModel::Array(items) => {
            &&& j is Array
            &&& j->Array_0.len() == items.len()
            &&& forall|k: int|
                0 <= k < items.len() ==> same_shape(#[trigger] items[k], j->Array_0[k])
        },
        StructuredModel::Table(entries) => {
            &&& j is Object
            &&& j->Object_0.len() == entries.len()
            &&& forall|k: int|
                0 <= k < entries.len() ==> j->Object_0[k].0 == (#[trigger] entries[k]).0
                    && same_shape(entries[k].1, j->Object_0[k].1)
        },
        StructuredModel::Timestamp(_) => j is String,
    }
}

/// Conversion keeps the shape of every value that holds no invalid float.
pub proof fn lemma_conversion_keeps_shape(v: StructuredModel, ctx: Context)
    requires
        !has_invalid_number(v),
    ensures
        same_shape(v, converted(v, ctx)),
    decreases v,
{
    match v {
        StructuredModel::Array(items) => {
            let j = converted(v, ctx);
            assert forall|k: int| 0 <= k < items.len() implies same_shape(
                #[trigger] items[k],
                j->Array_0[k],
            ) by {
                assert(!has_invalid_number(items[k]));
                lemma_conversion_keeps_shape(items[k], ctx);
            }
        },
        StructuredModel::Table(entries) => {
            let j = converted(v, ctx);
            assert forall|k: int| 0 <= k < entries.len() implies j->Object_0[k].0 == (
            #[trigger] entries[k]).0 && same_shape(entries[k].1, j->Object_0[k].1) by {
                assert(!has_invalid_number(entries[k].1));
                lemma_conversion_keeps_shape(entries[k].1, ctx);
            }
        },
        _ => {},
    }
}

} // verus!
