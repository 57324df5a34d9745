//! A JSON tree, read from text by serde_json, and the rules by which the
//! records of this library are read out of it, with serde's error texts: a
//! record is a JSON object (members taken in the order they come; unknown
//! names ignored; a name given twice refused; a missing optional field is
//! `None`) or a JSON array (fields by position, exactly as many as the record
//! has, a defaulted last field aside).

use vstd::prelude::*;
use vstd::string::*;

use serde_json::Value;

use crate::text::{decimal_text, i64_text, integer_text, opt_text, str_eq, u64_text};

verus! {

/// A JSON number as serde_json holds it: a non-negative integer, a negative
/// integer, or a floating-point number, kept as the text that Rust's `Display`
/// writes for it (this library never reads a float's value).
#[derive(Debug, Clone, PartialEq)]
pub enum JsonNumber {
    PosInt(u64),
    NegInt(i64),
    Float(String),
}

/// A JSON value. Object members keep the order in which the parser yields
/// them (serde_json yields them sorted by name, each name once); a lookup by
/// name takes the first member with that name.
#[derive(Debug, PartialEq)]
pub enum JsonValue {
    Null,
    Bool(bool),
    Number(JsonNumber),
    Str(String),
    Array(Vec<JsonValue>),
    Object(Vec<(String, JsonValue)>),
}

#[verifier::external_type_specification]
#[verifier::external_body]
pub struct ExSerdeJsonValue(Value);

/// What serde_json makes of a text: the tree, or the text of its error.
pub uninterp spec fn parsed_json(text: Seq<char>) -> Result<JsonValue, Seq<char>>;

/// A parse result with its error taken by view.
pub open spec fn parse_view(r: Result<JsonValue, String>) -> Result<JsonValue, Seq<char>> {
    match r {
        Ok(v) => Ok(v),
        Err(e) => Err(e@),
    }
}

/// A decoding result with both sides taken by view.
pub open spec fn result_view<T: View>(r: Result<T, String>) -> Result<T::V, Seq<char>> {
    match r {
        Ok(v) => Ok(v@),
        Err(e) => Err(e@),
    }
}

/// `serde_json::from_str::<serde_json::Value>`, with the tree converted member
/// by member into a `JsonValue` and the error into its display text. The
/// contract claims only that the outcome is a function of the text.
#[verifier::external_body]
pub(crate) fn parse_json_text(text: &str) -> (res: Result<JsonValue, String>)
    ensures
        parse_view(res) == parsed_json(text@),
{
    match serde_json::from_str::<Value>(text) {
        Ok(value) => Ok(json_from_serde(value)),
        Err(error) => Err(error.to_string()),
    }
}

/// Converts a serde_json tree into a `JsonValue`, variant by variant; the
/// number classes are read with `Number::as_u64` and `Number::as_i64`, and a
/// float is kept as the `Display` text of `Number::as_f64`.
/// Nothing is claimed of the result.
#[verifier::external_body]
pub(crate) fn json_from_serde(value: Value) -> JsonValue {
    match value {
        Value::Null => JsonValue::Null,
        Value::Bool(b) => JsonValue::Bool(b),
        Value::Number(n) => JsonValue::Number(match (n.as_u64(), n.as_i64()) {
            (Some(u), _) => JsonNumber::PosInt(u),
            (None, Some(i)) => JsonNumber::NegInt(i),
            (None, None) => JsonNumber::Float(n.as_f64().unwrap_or_default().to_string()),
        }),
        Value::String(s) => JsonValue::Str(s),
        Value::Array(items) => JsonValue::Array(items.into_iter().map(json_from_serde).collect()),
        Value::Object(map) => JsonValue::Object(map.into_iter().map(|(k, v)| (k, json_from_serde(v))).collect()),
    }
}

/// Parses a JSON text.
pub fn parse_json(text: &str) -> (res: Result<JsonValue, String>)
    ensures
        parse_view(res) == parsed_json(text@),
{
    parse_json_text(text)
}

/// The value of the first member named `name`.
pub open spec fn entry_lookup(entries: Seq<(String, JsonValue)>, name: Seq<char>) -> Option<JsonValue>
    decreases entries.len(),
{
    if entries.len() == 0 {
        None
    } else if entries[0].0@ == name {
        Some(entries[0].1)
    } else {
        entry_lookup(entries.drop_first(), name)
    }
}

/// The member `name` of an object; nothing for any other value.
pub open spec fn field(v: JsonValue, name: Seq<char>) -> Option<JsonValue> {
    match v {
        JsonValue::Object(entries) => entry_lookup(entries@, name),
        _ => None,
    }
}

proof fn lemma_entry_lookup_step(entries: Seq<(String, JsonValue)>, name: Seq<char>, i: int)
    requires
        0 <= i < entries.len(),
    ensures
        entry_lookup(entries.subrange(i, entries.len() as int), name) == (if entries[i].0@ == name {
            Some(entries[i].1)
        } else {
            entry_lookup(entries.subrange(i + 1, entries.len() as int), name)
        }),
{
    assert(entries.subrange(i, entries.len() as int).drop_first() =~= entries.subrange(
        i + 1,
        entries.len() as int,
    ));
}

/// The member `name` of an object (`serde_json::Value::get` with a string index).
pub fn get_field<'a>(v: &'a JsonValue, name: &str) -> (res: Option<&'a JsonValue>)
    ensures
        match res {
            Some(x) => field(*v, name@) == Some(*x),
            None => field(*v, name@) is None,
        },
{
    match v {
        JsonValue::Object(entries) => {
            let n = entries.len();
            assert(entries@.subrange(0, n as int) =~= entries@);
            for i in 0..n
                invariant
                    n == entries@.len(),
                    field(*v, name@) == entry_lookup(entries@, name@),
                    entry_lookup(entries@, name@) == entry_lookup(
                        entries@.subrange(i as int, n as int),
                        name@,
                    ),
            {
                proof {
                    lemma_entry_lookup_step(entries@, name@, i as int);
                }
                if str_eq(entries[i].0.as_str(), name) {
                    return Some(&entries[i].1);
                }
            }
            assert(entries@.subrange(n as int, n as int).len() == 0);
            None
        },
        _ => None,
    }
}

/// Whether the value is JSON `null`.
pub fn is_null(v: &JsonValue) -> (res: bool)
    ensures
        res == (*v is Null),
{
    match v {
        JsonValue::Null => true,
        _ => false,
    }
}

/// What Rust's `{:?}` writes for a string: the text in double quotes, with
/// quotes, backslashes and unprintable characters escaped.
pub uninterp spec fn debug_text(s: Seq<char>) -> Seq<char>;

/// `<str as Debug>::fmt`, through `format!("{:?}")`. The contract claims only
/// that the text is a function of the string.
#[verifier::external_body]
fn debug_quoted(s: &str) -> (res: String)
    ensures
        res@ == debug_text(s@),
{
    format!("{:?}", s)
}

/// A float's text as serde shows it: `.0` is added to a finite number that
/// was written without a decimal point (`inf`, `-inf` and `NaN` stay as they
/// are).
pub open spec fn float_text(t: Seq<char>) -> Seq<char> {
    if t.contains('.') || t == "inf"@ || t == "-inf"@ || t == "NaN"@ {
        t
    } else {
        t + ".0"@
    }
}

/// How serde names a value that it did not expect (`serde::de::Unexpected`
/// as serde_json reports a `Value`).
pub open spec fn unexpected(v: JsonValue) -> Seq<char> {
    match v {
        JsonValue::Null => "unit value"@,
        JsonValue::Bool(b) => if b {
            "boolean `true`"@
        } else {
            "boolean `false`"@
        },
        JsonValue::Number(JsonNumber::PosInt(u)) => "integer `"@ + decimal_text(u as nat) + "`"@,
        JsonValue::Number(JsonNumber::NegInt(i)) => "integer `"@ + integer_text(i as int) + "`"@,
        JsonValue::Number(JsonNumber::Float(t)) => "floating point `"@ + float_text(t@) + "`"@,
        JsonValue::Str(s) => "string "@ + debug_text(s@),
        JsonValue::Array(_) => "sequence"@,
        JsonValue::Object(_) => "map"@,
    }
}

/// The error for a value of the wrong JSON type.
pub open spec fn type_error(v: JsonValue, expected: Seq<char>) -> Seq<char> {
    "invalid type: "@ + unexpected(v) + ", expected "@ + expected
}

/// The error for a value of the right type that the target cannot hold.
pub open spec fn value_error(v: JsonValue, expected: Seq<char>) -> Seq<char> {
    "invalid value: "@ + unexpected(v) + ", expected "@ + expected
}

/// The error for a required field that the object lacks.
pub open spec fn missing_field_error(name: Seq<char>) -> Seq<char> {
    "missing field `"@ + name + "`"@
}

/// The error for a field that the object gives twice.
pub open spec fn duplicate_field_error(name: Seq<char>) -> Seq<char> {
    "duplicate field `"@ + name + "`"@
}

/// A signed 64-bit integer: any JSON integer in range.
pub open spec fn decode_i64(v: JsonValue) -> Result<i64, Seq<char>> {
    match v {
        JsonValue::Number(JsonNumber::PosInt(u)) => if u <= i64::MAX as u64 {
            Ok(u as i64)
        } else {
            Err(value_error(v, "i64"@))
        },
        JsonValue::Number(JsonNumber::NegInt(i)) => Ok(i),
        _ => Err(type_error(v, "i64"@)),
    }
}

/// An unsigned 64-bit integer: any non-negative JSON integer.
pub open spec fn decode_u64(v: JsonValue) -> Result<u64, Seq<char>> {
    match v {
        JsonValue::Number(JsonNumber::PosInt(u)) => Ok(u),
        JsonValue::Number(JsonNumber::NegInt(_)) => Err(value_error(v, "u64"@)),
        _ => Err(type_error(v, "u64"@)),
    }
}

/// A string: a JSON string.
pub open spec fn decode_string(v: JsonValue) -> Result<Seq<char>, Seq<char>> {
    match v {
        JsonValue::Str(s) => Ok(s@),
        _ => Err(type_error(v, "a string"@)),
    }
}

/// An optional signed integer: `null` is `None`.
pub open spec fn decode_opt_i64(v: JsonValue) -> Result<Option<i64>, Seq<char>> {
    if v is Null {
        Ok(None)
    } else {
        match decode_i64(v) {
            Ok(i) => Ok(Some(i)),
            Err(e) => Err(e),
        }
    }
}

/// An optional string: `null` is `None`.
pub open spec fn decode_opt_string(v: JsonValue) -> Result<Option<Seq<char>>, Seq<char>> {
    if v is Null {
        Ok(None)
    } else {
        match decode_string(v) {
            Ok(s) => Ok(Some(s)),
            Err(e) => Err(e),
        }
    }
}

fn text_of(s: &str) -> (res: String)
    ensures
        res@ == s@,
{
    s.to_owned()
}

fn has_point(t: &str) -> (res: bool)
    ensures
        res == t@.contains('.'),
{
    let n = t.unicode_len();
    for i in 0..n
        invariant
            n == t@.len(),
            forall|k: int| 0 <= k < i ==> t@[k] != '.',
    {
        if t.get_char(i) == '.' {
            assert(t@[i as int] == '.');
            return true;
        }
    }
    false
}

fn float_text_of(t: &str) -> (res: String)
    ensures
        res@ == float_text(t@),
{
    if has_point(t) || str_eq(t, "inf") || str_eq(t, "-inf") || str_eq(t, "NaN") {
        text_of(t)
    } else {
        let mut s = text_of(t);
        s.append(".0");
        s
    }
}

/// How serde names the value `v` in an error.
pub fn unexpected_text(v: &JsonValue) -> (res: String)
    ensures
        res@ == unexpected(*v),
{
    match v {
        JsonValue::Null => text_of("unit value"),
        JsonValue::Bool(b) => if *b {
            text_of("boolean `true`")
        } else {
            text_of("boolean `false`")
        },
        JsonValue::Number(JsonNumber::PosInt(u)) => {
            let mut s = text_of("integer `");
            s.append(u64_text(*u).as_str());
            s.append("`");
            s
        },
        JsonValue::Number(JsonNumber::NegInt(i)) => {
            let mut s = text_of("integer `");
            s.append(i64_text(*i).as_str());
            s.append("`");
            s
        },
        JsonValue::Number(JsonNumber::Float(t)) => {
            let mut s = text_of("floating point `");
            s.append(float_text_of(t.as_str()).as_str());
            s.append("`");
            s
        },
        JsonValue::Str(x) => {
            let mut s = text_of("string ");
            s.append(debug_quoted(x.as_str()).as_str());
            s
        },
        JsonValue::Array(_) => text_of("sequence"),
        JsonValue::Object(_) => text_of("map"),
    }
}

pub fn type_error_text(v: &JsonValue, expected: &str) -> (res: String)
    ensures
        res@ == type_error(*v, expected@),
{
    let mut s = text_of("invalid type: ");
    s.append(unexpected_text(v).as_str());
    s.append(", expected ");
    s.append(expected);
    s
}

fn value_error_text(v: &JsonValue, expected: &str) -> (res: String)
    ensures
        res@ == value_error(*v, expected@),
{
    let mut s = text_of("invalid value: ");
    s.append(unexpected_text(v).as_str());
    s.append(", expected ");
    s.append(expected);
    s
}

pub fn missing_field_text(name: &str) -> (res: String)
    ensures
        res@ == missing_field_error(name@),
{
    let mut s = text_of("missing field `");
    s.append(name);
    s.append("`");
    s
}

fn duplicate_field_text(name: &str) -> (res: String)
    ensures
        res@ == duplicate_field_error(name@),
{
    let mut s = text_of("duplicate field `");
    s.append(name);
    s.append("`");
    s
}

pub fn json_i64(v: &JsonValue) -> (res: Result<i64, String>)
    ensures
        result_view(res) == decode_i64(*v),
{
    match v {
        JsonValue::Number(JsonNumber::PosInt(u)) => {
            if *u <= i64::MAX as u64 {
                Ok(*u as i64)
            } else {
                Err(value_error_text(v, "i64"))
            }
        },
        JsonValue::Number(JsonNumber::NegInt(i)) => Ok(*i),
        _ => Err(type_error_text(v, "i64")),
    }
}

pub fn json_u64(v: &JsonValue) -> (res: Result<u64, String>)
    ensures
        result_view(res) == decode_u64(*v),
{
    match v {
        JsonValue::Number(JsonNumber::PosInt(u)) => Ok(*u),
        JsonValue::Number(JsonNumber::NegInt(_)) => Err(value_error_text(v, "u64")),
        _ => Err(type_error_text(v, "u64")),
    }
}

pub fn json_string(v: &JsonValue) -> (res: Result<String, String>)
    ensures
        result_view(res) == decode_string(*v),
{
    match v {
        JsonValue::Str(s) => Ok(s.clone()),
        _ => Err(type_error_text(v, "a string")),
    }
}

pub fn json_opt_i64(v: &JsonValue) -> (res: Result<Option<i64>, String>)
    ensures
        match res {
            Ok(o) => decode_opt_i64(*v) == Ok::<Option<i64>, Seq<char>>(o),
            Err(e) => decode_opt_i64(*v) == Err::<Option<i64>, Seq<char>>(e@),
        },
{
    if is_null(v) {
        Ok(None)
    } else {
        match json_i64(v) {
            Ok(i) => Ok(Some(i)),
            Err(e) => Err(e),
        }
    }
}

pub fn json_opt_string(v: &JsonValue) -> (res: Result<Option<String>, String>)
    ensures
        match res {
            Ok(o) => decode_opt_string(*v) == Ok::<Option<Seq<char>>, Seq<char>>(opt_text(o)),
            Err(e) => decode_opt_string(*v) == Err::<Option<Seq<char>>, Seq<char>>(e@),
        },
{
    if is_null(v) {
        Ok(None)
    } else {
        match json_string(v) {
            Ok(s) => Ok(Some(s)),
            Err(e) => Err(e),
        }
    }
}

/// Whether a value can hold a record: an object or an array.
pub open spec fn is_record(v: JsonValue) -> bool {
    v is Object || v is Array
}

/// The field `name`, at position `index`, of a record: by name in an object
/// (its first member of that name), by position in an array.
pub open spec fn slot(v: JsonValue, name: Seq<char>, index: int) -> Option<JsonValue> {
    match v {
        JsonValue::Object(entries) => entry_lookup(entries@, name),
        JsonValue::Array(items) => if 0 <= index < items@.len() {
            Some(items@[index])
        } else {
            None
        },
        _ => None,
    }
}

/// The error of a result, if it failed.
pub open spec fn error_of<T>(r: Result<T, Seq<char>>) -> Option<Seq<char>> {
    match r {
        Ok(_) => None,
        Err(e) => Some(e),
    }
}

/// The error of reading a field's value with `decode`; none for an absent field.
pub open spec fn present_error<T>(
    value: Option<JsonValue>,
    decode: spec_fn(JsonValue) -> Result<T, Seq<char>>,
) -> Option<Seq<char>> {
    match value {
        Some(x) => error_of(decode(x)),
        None => None,
    }
}

/// The position of `key` among `names`, searching from `from`.
pub open spec fn name_index(names: Seq<Seq<char>>, key: Seq<char>, from: nat) -> Option<nat>
    decreases names.len() - from,
{
    if from >= names.len() {
        None
    } else if names[from as int] == key {
        Some(from)
    } else {
        name_index(names, key, from + 1)
    }
}

/// The first failure met when the members of an object are read in order,
/// from member `i` on: a member named after a field that an earlier member
/// already gave is a duplicate; otherwise the field's error, if its value
/// fails (`errors[j]` is the error of the first member named `names[j]`);
/// members of other names are skipped.
pub open spec fn member_failure(
    entries: Seq<(String, JsonValue)>,
    i: nat,
    names: Seq<Seq<char>>,
    errors: Seq<Option<Seq<char>>>,
) -> Option<Seq<char>>
    decreases entries.len() - i,
{
    if i >= entries.len() {
        None
    } else {
        let key = entries[i as int].0@;
        match name_index(names, key, 0) {
            None => member_failure(entries, i + 1, names, errors),
            Some(j) => if entry_lookup(entries.take(i as int), key) is Some {
                Some(duplicate_field_error(key))
            } else if errors[j as int] is Some {
                errors[j as int]
            } else {
                member_failure(entries, i + 1, names, errors)
            },
        }
    }
}

/// The first field, from `j` on in declaration order, that is required and
/// that the object lacks.
pub open spec fn missing_failure(
    entries: Seq<(String, JsonValue)>,
    names: Seq<Seq<char>>,
    optional: Seq<bool>,
    j: nat,
) -> Option<Seq<char>>
    decreases names.len() - j,
{
    if j >= names.len() {
        None
    } else if !optional[j as int] && entry_lookup(entries, names[j as int]) is None {
        Some(missing_field_error(names[j as int]))
    } else {
        missing_failure(entries, names, optional, j + 1)
    }
}

/// What serde expects of an array that holds the record: `struct X with N
/// elements`.
pub open spec fn length_expectation(record: Seq<char>, count: nat) -> Seq<char> {
    "struct "@ + record + " with "@ + decimal_text(count) + if count == 1 {
        " element"@
    } else {
        " elements"@
    }
}

/// The error for an array that ends before the field at position `index`.
pub open spec fn short_array_error(index: nat, record: Seq<char>, count: nat) -> Seq<char> {
    "invalid length "@ + decimal_text(index) + ", expected "@ + length_expectation(record, count)
}

/// The error for an array with more elements than the record has fields.
pub open spec fn long_array_error(len: nat) -> Seq<char> {
    "invalid length "@ + decimal_text(len) + ", expected fewer elements in array"@
}

/// The first failure met when an array of length `len` is read as the record,
/// field by field from `j` on: the field's error if its element fails, a
/// length error at the first field past the end that has no default, and
/// once all fields are read, a length error if elements are left over.
pub open spec fn array_failure(
    len: nat,
    record: Seq<char>,
    defaulted: Seq<bool>,
    errors: Seq<Option<Seq<char>>>,
    j: nat,
) -> Option<Seq<char>>
    decreases errors.len() - j,
{
    if j >= errors.len() {
        if len > errors.len() {
            Some(long_array_error(len))
        } else {
            None
        }
    } else if j < len && errors[j as int] is Some {
        errors[j as int]
    } else if j >= len && !defaulted[j as int] {
        Some(short_array_error(j, record, errors.len()))
    } else {
        array_failure(len, record, defaulted, errors, j + 1)
    }
}

/// The error for a value that cannot hold the record `record`.
pub open spec fn record_type_error(v: JsonValue, record: Seq<char>) -> Seq<char> {
    type_error(v, "struct "@ + record)
}

/// Why `v` cannot be read as the record `record`, whose fields are `names`
/// (`optional`: may be left out of an object; `defaulted`: may be left off
/// the end of an array), given the error of each field's value (`errors`,
/// none for an absent field); none when it can.
pub open spec fn record_failure(
    v: JsonValue,
    record: Seq<char>,
    names: Seq<Seq<char>>,
    optional: Seq<bool>,
    defaulted: Seq<bool>,
    errors: Seq<Option<Seq<char>>>,
) -> Option<Seq<char>> {
    match v {
        JsonValue::Object(entries) => match member_failure(entries@, 0, names, errors) {
            Some(e) => Some(e),
            None => missing_failure(entries@, names, optional, 0),
        },
        JsonValue::Array(items) => array_failure(items@.len(), record, defaulted, errors, 0),
        _ => Some(record_type_error(v, record)),
    }
}

/// Whether no two field names are the same.
pub open spec fn distinct_names(names: Seq<Seq<char>>) -> bool {
    forall|a: int, b: int| 0 <= a < b < names.len() ==> names[a] != names[b]
}

/// Three names, no two alike, are distinct.
pub proof fn lemma_distinct_three(x: Seq<char>, y: Seq<char>, z: Seq<char>)
    requires
        x != y,
        x != z,
        y != z,
    ensures
        distinct_names(seq![x, y, z]),
{
    let s = seq![x, y, z];
    assert forall|a: int, b: int| 0 <= a < b < s.len() implies s[a] != s[b] by {
        if a == 0 && b == 1 {
        } else if a == 0 {
        } else {
        }
    }
}

/// Four names, no two alike, are distinct.
pub proof fn lemma_distinct_four(w: Seq<char>, x: Seq<char>, y: Seq<char>, z: Seq<char>)
    requires
        w != x,
        w != y,
        w != z,
        x != y,
        x != z,
        y != z,
    ensures
        distinct_names(seq![w, x, y, z]),
{
    let s = seq![w, x, y, z];
    assert forall|a: int, b: int| 0 <= a < b < s.len() implies s[a] != s[b] by {
        if a == 0 && b == 1 {
        } else if a == 0 && b == 2 {
        } else if a == 0 {
        } else if a == 1 && b == 2 {
        } else if a == 1 {
        } else {
        }
    }
}

pub open spec fn names_view(names: Seq<&str>) -> Seq<Seq<char>> {
    names.map_values(|s: &str| s@)
}

pub open spec fn errors_view(errors: Seq<Option<String>>) -> Seq<Option<Seq<char>>> {
    errors.map_values(|e: Option<String>| opt_text(e))
}

pub fn record_slot<'a>(v: &'a JsonValue, name: &str, index: usize) -> (res: Option<&'a JsonValue>)
    ensures
        match res {
            Some(x) => slot(*v, name@, index as int) == Some(*x),
            None => slot(*v, name@, index as int) is None,
        },
{
    match v {
        JsonValue::Object(_) => get_field(v, name),
        JsonValue::Array(items) => {
            if index < items.len() {
                Some(&items[index])
            } else {
                None
            }
        },
        _ => None,
    }
}

/// The error text of a field read, if it failed.
pub fn error_text<T>(r: &Option<Result<T, String>>) -> (res: Option<String>)
    ensures
        opt_text(res) == match r {
            Some(Err(e)) => Some(e@),
            _ => None::<Seq<char>>,
        },
{
    match r {
        Some(Err(e)) => Some(e.clone()),
        _ => None,
    }
}

fn name_position(names: &Vec<&str>, key: &str) -> (res: Option<usize>)
    ensures
        match res {
            Some(j) => j < names@.len() && name_index(names_view(names@), key@, 0) == Some(
                j as nat,
            ),
            None => name_index(names_view(names@), key@, 0) is None,
        },
{
    let k = names.len();
    for j in 0..k
        invariant
            k == names@.len(),
            name_index(names_view(names@), key@, 0) == name_index(
                names_view(names@),
                key@,
                j as nat,
            ),
    {
        if str_eq(names[j], key) {
            return Some(j);
        }
    }
    None
}

fn member_failure_text(
    entries: &Vec<(String, JsonValue)>,
    names: &Vec<&str>,
    errors: &Vec<Option<String>>,
) -> (res: Option<String>)
    requires
        names@.len() == errors@.len(),
    ensures
        opt_text(res) == member_failure(entries@, 0, names_view(names@), errors_view(errors@)),
{
    let n = entries.len();
    let k = names.len();
    let ghost nv = names_view(names@);
    let ghost ev = errors_view(errors@);
    let mut seen: Vec<bool> = Vec::new();
    for j in 0..k
        invariant
            seen@.len() == j,
            forall|a: int| 0 <= a < j ==> !seen@[a],
    {
        seen.push(false);
    }
    assert forall|a: int| 0 <= a < k implies seen@[a] == (entry_lookup(
        entries@.take(0),
        nv[a],
    ) is Some) by {
        assert(entries@.take(0).len() == 0);
    }
    for i in 0..n
        invariant
            n == entries@.len(),
            k == names@.len(),
            k == errors@.len(),
            seen@.len() == k,
            nv == names_view(names@),
            ev == errors_view(errors@),
            member_failure(entries@, 0, nv, ev) == member_failure(entries@, i as nat, nv, ev),
            forall|a: int|
                0 <= a < k ==> seen@[a] == (entry_lookup(entries@.take(i as int), nv[a]) is Some),
    {
        let key = entries[i].0.as_str();
        let position = name_position(names, key);
        proof {
            lemma_name_index_found(nv, key@, 0);
        }
        match position {
            None => {},
            Some(j) => {
                if seen[j] {
                    return Some(duplicate_field_text(key));
                }
                match &errors[j] {
                    Some(e) => {
                        return Some(e.clone());
                    },
                    None => {},
                }
            },
        }
        proof {
            assert(entries@.take(i + 1) =~= entries@.take(i as int).push(entries@[i as int]));
            assert forall|a: int| 0 <= a < k implies entry_lookup(
                entries@.take(i + 1),
                nv[a],
            ) == (if entry_lookup(entries@.take(i as int), nv[a]) is Some {
                entry_lookup(entries@.take(i as int), nv[a])
            } else if entries@[i as int].0@ == nv[a] {
                Some(entries@[i as int].1)
            } else {
                None
            }) by {
                lemma_entry_lookup_push(entries@.take(i as int), entries@[i as int], nv[a]);
            }
        }
        let mut a: usize = 0;
        while a < k
            invariant
                a <= k,
                i < n,
                n == entries@.len(),
                k == names@.len(),
                seen@.len() == k,
                nv == names_view(names@),
                key@ == entries@[i as int].0@,
                forall|b: int|
                    0 <= b < a ==> seen@[b] == (entry_lookup(entries@.take(i + 1), nv[b]) is Some),
                forall|b: int|
                    a <= b < k ==> seen@[b] == (entry_lookup(entries@.take(i as int), nv[b]) is Some),
                forall|b: int|
                    0 <= b < k ==> entry_lookup(entries@.take(i + 1), nv[b]) == (if entry_lookup(
                        entries@.take(i as int),
                        nv[b],
                    ) is Some {
                        entry_lookup(entries@.take(i as int), nv[b])
                    } else if entries@[i as int].0@ == nv[b] {
                        Some(entries@[i as int].1)
                    } else {
                        None
                    }),
            decreases k - a,
        {
            if str_eq(names[a], key) {
                seen.set(a, true);
            }
            a = a + 1;
        }
    }
    None
}

fn missing_failure_text(v: &JsonValue, names: &Vec<&str>, optional: &Vec<bool>) -> (res: Option<
    String,
>)
    requires
        v is Object,
        names@.len() == optional@.len(),
    ensures
        opt_text(res) == missing_failure(v->Object_0@, names_view(names@), optional@, 0),
{
    let k = names.len();
    for j in 0..k
        invariant
            k == names@.len(),
            k == optional@.len(),
            v is Object,
            missing_failure(v->Object_0@, names_view(names@), optional@, 0) == missing_failure(
                v->Object_0@,
                names_view(names@),
                optional@,
                j as nat,
            ),
    {
        if !optional[j] && get_field(v, names[j]).is_none() {
            return Some(missing_field_text(names[j]));
        }
    }
    None
}

fn length_expectation_text(record: &str, count: usize) -> (res: String)
    ensures
        res@ == length_expectation(record@, count as nat),
{
    let mut s = text_of("struct ");
    s.append(record);
    s.append(" with ");
    s.append(u64_text(count as u64).as_str());
    if count == 1 {
        s.append(" element");
    } else {
        s.append(" elements");
    }
    s
}

fn array_failure_text(
    len: usize,
    record: &str,
    defaulted: &Vec<bool>,
    errors: &Vec<Option<String>>,
) -> (res: Option<String>)
    requires
        defaulted@.len() == errors@.len(),
    ensures
        opt_text(res) == array_failure(
            len as nat,
            record@,
            defaulted@,
            errors_view(errors@),
            0,
        ),
{
    let k = errors.len();
    let ghost ev = errors_view(errors@);
    for j in 0..k
        invariant
            k == errors@.len(),
            k == defaulted@.len(),
            ev == errors_view(errors@),
            array_failure(len as nat, record@, defaulted@, ev, 0) == array_failure(
                len as nat,
                record@,
                defaulted@,
                ev,
                j as nat,
            ),
    {
        if j < len {
            match &errors[j] {
                Some(e) => {
                    return Some(e.clone());
                },
                None => {},
            }
        } else if !defaulted[j] {
            let mut s = text_of("invalid length ");
            s.append(u64_text(j as u64).as_str());
            s.append(", expected ");
            s.append(length_expectation_text(record, k).as_str());
            return Some(s);
        }
    }
    if len > k {
        let mut s = text_of("invalid length ");
        s.append(u64_text(len as u64).as_str());
        s.append(", expected fewer elements in array");
        Some(s)
    } else {
        None
    }
}

pub fn record_type_error_text(v: &JsonValue, record: &str) -> (res: String)
    ensures
        res@ == record_type_error(*v, record@),
{
    let mut s = text_of("struct ");
    s.append(record);
    type_error_text(v, s.as_str())
}

/// Why `v` cannot be read as the record `record` (see `record_failure`).
pub fn record_failure_text(
    v: &JsonValue,
    record: &str,
    names: &Vec<&str>,
    optional: &Vec<bool>,
    defaulted: &Vec<bool>,
    errors: &Vec<Option<String>>,
) -> (res: Option<String>)
    requires
        names@.len() == optional@.len(),
        names@.len() == defaulted@.len(),
        names@.len() == errors@.len(),
    ensures
        opt_text(res) == record_failure(
            *v,
            record@,
            names_view(names@),
            optional@,
            defaulted@,
            errors_view(errors@),
        ),
{
    match v {
        JsonValue::Object(entries) => match member_failure_text(entries, names, errors) {
            Some(e) => Some(e),
            None => missing_failure_text(v, names, optional),
        },
        JsonValue::Array(items) => array_failure_text(items.len(), record, defaulted, errors),
        _ => Some(record_type_error_text(v, record)),
    }
}

proof fn lemma_name_index_found(names: Seq<Seq<char>>, key: Seq<char>, from: nat)
    ensures
        match name_index(names, key, from) {
            Some(j) => from <= j < names.len() && names[j as int] == key,
            None => true,
        },
    decreases names.len() - from,
{
    if from < names.len() && names[from as int] != key {
        lemma_name_index_found(names, key, from + 1);
    }
}

proof fn lemma_member_failure_push(
    entries: Seq<(String, JsonValue)>,
    member: (String, JsonValue),
    names: Seq<Seq<char>>,
    errors: Seq<Option<Seq<char>>>,
    i: nat,
)
    requires
        name_index(names, member.0@, 0) is None,
        i <= entries.len(),
    ensures
        member_failure(entries.push(member), i, names, errors) == member_failure(
            entries,
            i,
            names,
            errors,
        ),
    decreases entries.len() - i,
{
    let pushed = entries.push(member);
    if i < entries.len() {
        assert(pushed.take(i as int) =~= entries.take(i as int));
        assert(pushed[i as int] == entries[i as int]);
        lemma_member_failure_push(entries, member, names, errors, i + 1);
    } else {
        assert(pushed[i as int] == member);
        assert(member_failure(pushed, i + 1, names, errors) is None);
    }
}

proof fn lemma_missing_failure_push(
    entries: Seq<(String, JsonValue)>,
    member: (String, JsonValue),
    names: Seq<Seq<char>>,
    optional: Seq<bool>,
    j: nat,
)
    requires
        name_index(names, member.0@, j) is None,
    ensures
        missing_failure(entries.push(member), names, optional, j) == missing_failure(
            entries,
            names,
            optional,
            j,
        ),
    decreases names.len() - j,
{
    if j < names.len() {
        lemma_entry_lookup_push(entries, member, names[j as int]);
        lemma_missing_failure_push(entries, member, names, optional, j + 1);
    }
}

/// Appending a member whose name is no field's changes neither what a scan of
/// the members meets nor which fields are missing.
pub proof fn lemma_unknown_member_ignored(
    entries: Seq<(String, JsonValue)>,
    member: (String, JsonValue),
    names: Seq<Seq<char>>,
    optional: Seq<bool>,
    errors: Seq<Option<Seq<char>>>,
)
    requires
        name_index(names, member.0@, 0) is None,
    ensures
        member_failure(entries.push(member), 0, names, errors) == member_failure(
            entries,
            0,
            names,
            errors,
        ),
        missing_failure(entries.push(member), names, optional, 0) == missing_failure(
            entries,
            names,
            optional,
            0,
        ),
{
    lemma_member_failure_push(entries, member, names, errors, 0);
    lemma_missing_failure_push(entries, member, names, optional, 0);
}

proof fn lemma_name_index(names: Seq<Seq<char>>, j: int, from: int)
    requires
        distinct_names(names),
        0 <= from <= j < names.len(),
    ensures
        name_index(names, names[j], from as nat) == Some(j as nat),
    decreases j - from,
{
    if from < j {
        assert(names[from] != names[j]);
        lemma_name_index(names, j, from + 1);
    }
}

proof fn lemma_member_scan(
    entries: Seq<(String, JsonValue)>,
    names: Seq<Seq<char>>,
    errors: Seq<Option<Seq<char>>>,
    j: int,
    i: int,
)
    requires
        distinct_names(names),
        names.len() == errors.len(),
        0 <= j < names.len(),
        0 <= i <= entries.len(),
        member_failure(entries, i as nat, names, errors) is None,
        entry_lookup(entries.take(i), names[j]) is None,
        entry_lookup(entries.subrange(i, entries.len() as int), names[j]) is Some,
    ensures
        errors[j] is None,
    decreases entries.len() - i,
{
    if i == entries.len() {
        assert(entries.subrange(i, entries.len() as int).len() == 0);
    } else {
        lemma_entry_lookup_step(entries, names[j], i);
        assert(entries.take(i + 1) =~= entries.take(i).push(entries[i]));
        lemma_entry_lookup_push(entries.take(i), entries[i], names[j]);
        let key = entries[i].0@;
        if key == names[j] {
            lemma_name_index(names, j, 0);
        } else {
            match name_index(names, key, 0) {
                None => {},
                Some(jj) => {},
            }
            lemma_member_scan(entries, names, errors, j, i + 1);
        }
    }
}

proof fn lemma_missing_scan(
    entries: Seq<(String, JsonValue)>,
    names: Seq<Seq<char>>,
    optional: Seq<bool>,
    j: int,
    from: int,
)
    requires
        names.len() == optional.len(),
        0 <= from <= j < names.len(),
        missing_failure(entries, names, optional, from as nat) is None,
    ensures
        !optional[j] ==> entry_lookup(entries, names[j]) is Some,
    decreases j - from,
{
    if from < j {
        lemma_missing_scan(entries, names, optional, j, from + 1);
    }
}

proof fn lemma_array_scan(
    len: nat,
    record: Seq<char>,
    defaulted: Seq<bool>,
    errors: Seq<Option<Seq<char>>>,
    j: int,
    from: int,
)
    requires
        defaulted.len() == errors.len(),
        0 <= from <= j < errors.len(),
        array_failure(len, record, defaulted, errors, from as nat) is None,
    ensures
        j < len ==> errors[j] is None,
        j >= len ==> defaulted[j],
    decreases j - from,
{
    if from < j {
        lemma_array_scan(len, record, defaulted, errors, j, from + 1);
    }
}

/// When a record can be read, the value is an object or an array, every field
/// that is there reads without error, and every field that is not there may
/// be left out.
pub proof fn lemma_record_readable(
    v: JsonValue,
    record: Seq<char>,
    names: Seq<Seq<char>>,
    optional: Seq<bool>,
    defaulted: Seq<bool>,
    errors: Seq<Option<Seq<char>>>,
    j: int,
)
    requires
        record_failure(v, record, names, optional, defaulted, errors) is None,
        distinct_names(names),
        names.len() == optional.len(),
        names.len() == defaulted.len(),
        names.len() == errors.len(),
        0 <= j < names.len(),
    ensures
        is_record(v),
        slot(v, names[j], j) is Some ==> errors[j] is None,
        slot(v, names[j], j) is None ==> (v is Object && optional[j]) || (v is Array
            && defaulted[j]),
{
    match v {
        JsonValue::Object(entries) => {
            lemma_missing_scan(entries@, names, optional, j, 0);
            if entry_lookup(entries@, names[j]) is Some {
                assert(entries@.take(0).len() == 0);
                assert(entries@.subrange(0, entries@.len() as int) =~= entries@);
                lemma_member_scan(entries@, names, errors, j, 0);
            }
        },
        JsonValue::Array(items) => {
            lemma_array_scan(items@.len(), record, defaulted, errors, j, 0);
        },
        _ => {},
    }
}

/// Whether the members of an object have distinct names, each of them one of
/// `names`: the shape in which serde_json writes a record.
pub open spec fn record_members(entries: Seq<(String, JsonValue)>, names: Seq<Seq<char>>) -> bool {
    &&& forall|i: int|
        0 <= i < entries.len() ==> name_index(names, #[trigger] entries[i].0@, 0) is Some
    &&& forall|i: int, k: int| 0 <= i < k < entries.len() ==> entries[i].0@ != entries[k].0@
}

/// Whether `v` is an object whose members have distinct names, all of them
/// among `names`.
pub open spec fn record_object(v: JsonValue, names: Seq<Seq<char>>) -> bool {
    v matches JsonValue::Object(entries) && record_members(entries@, names)
}

proof fn lemma_lookup_absent(entries: Seq<(String, JsonValue)>, key: Seq<char>)
    requires
        forall|k: int| 0 <= k < entries.len() ==> entries[k].0@ != key,
    ensures
        entry_lookup(entries, key) is None,
    decreases entries.len(),
{
    if entries.len() > 0 {
        assert(entries[0].0@ != key);
        assert forall|k: int| 0 <= k < entries.drop_first().len() implies entries.drop_first()[k].0@
            != key by {
            assert(entries.drop_first()[k] == entries[k + 1]);
        }
        lemma_lookup_absent(entries.drop_first(), key);
    }
}

proof fn lemma_clean_scan(
    entries: Seq<(String, JsonValue)>,
    names: Seq<Seq<char>>,
    errors: Seq<Option<Seq<char>>>,
    i: nat,
)
    requires
        forall|a: int, b: int| 0 <= a < b < entries.len() ==> entries[a].0@ != entries[b].0@,
        forall|j: int| 0 <= j < errors.len() ==> errors[j] is None,
        names.len() == errors.len(),
        i <= entries.len(),
    ensures
        member_failure(entries, i, names, errors) is None,
    decreases entries.len() - i,
{
    if i < entries.len() {
        let key = entries[i as int].0@;
        lemma_name_index_found(names, key, 0);
        assert forall|k: int| 0 <= k < entries.take(i as int).len() implies entries.take(
            i as int,
        )[k].0@ != key by {
            assert(entries.take(i as int)[k] == entries[k]);
        }
        lemma_lookup_absent(entries.take(i as int), key);
        lemma_clean_scan(entries, names, errors, i + 1);
    }
}

proof fn lemma_nothing_missing(
    entries: Seq<(String, JsonValue)>,
    names: Seq<Seq<char>>,
    optional: Seq<bool>,
    j: nat,
)
    requires
        names.len() == optional.len(),
        forall|k: int|
            j <= k < names.len() ==> optional[k] || entry_lookup(entries, names[k]) is Some,
    ensures
        missing_failure(entries, names, optional, j) is None,
    decreases names.len() - j,
{
    if j < names.len() {
        lemma_nothing_missing(entries, names, optional, j + 1);
    }
}

/// An object whose members have distinct names, that has every field which
/// may not be left out, and whose fields all read without error holds the
/// record.
pub proof fn lemma_well_formed_record(
    v: JsonValue,
    record: Seq<char>,
    names: Seq<Seq<char>>,
    optional: Seq<bool>,
    defaulted: Seq<bool>,
    errors: Seq<Option<Seq<char>>>,
)
    requires
        record_object(v, names),
        names.len() == optional.len(),
        names.len() == errors.len(),
        forall|j: int| 0 <= j < errors.len() ==> errors[j] is None,
        forall|j: int| 0 <= j < names.len() ==> optional[j] || field(v, names[j]) is Some,
    ensures
        record_failure(v, record, names, optional, defaulted, errors) is None,
{
    let entries = v->Object_0@;
    lemma_clean_scan(entries, names, errors, 0);
    lemma_nothing_missing(entries, names, optional, 0);
}

/// An object of a record's shape has no member whose name is no field's.
pub proof fn lemma_foreign_name_absent(v: JsonValue, names: Seq<Seq<char>>, key: Seq<char>)
    requires
        record_object(v, names),
        name_index(names, key, 0) is None,
    ensures
        field(v, key) is None,
{
    let entries = v->Object_0@;
    assert forall|k: int| 0 <= k < entries.len() implies entries[k].0@ != key by {
        assert(name_index(names, entries[k].0@, 0) is Some);
    }
    lemma_lookup_absent(entries, key);
}

/// Appending a member changes a lookup only for its own name, and only when
/// no earlier member has that name.
pub proof fn lemma_entry_lookup_push(
    entries: Seq<(String, JsonValue)>,
    member: (String, JsonValue),
    name: Seq<char>,
)
    ensures
        entry_lookup(entries.push(member), name) == (if entry_lookup(entries, name) is Some {
            entry_lookup(entries, name)
        } else if member.0@ == name {
            Some(member.1)
        } else {
            None
        }),
    decreases entries.len(),
{
    if entries.len() > 0 {
        assert(entries.push(member).drop_first() =~= entries.drop_first().push(member));
        assert(entries.push(member)[0] == entries[0]);
        lemma_entry_lookup_push(entries.drop_first(), member, name);
    } else {
        assert(entries.push(member).drop_first() =~= Seq::<(String, JsonValue)>::empty());
        assert(entries.push(member)[0] == member);
        assert(entry_lookup(entries.push(member).drop_first(), name) is None);
    }
}

} // verus!
