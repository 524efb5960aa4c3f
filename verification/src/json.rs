//! JSON documents as the venues send them, and field decoding with the
//! conventions of derived deserializers: a field marked as defaulted that is
//! absent takes its default, a present field must have the declared type, an
//! optional field may also be `null`, and unknown fields are ignored.

use vstd::prelude::*;

verus! {

/// A JSON number: non-negative integers, negative integers, and numbers
/// written with a fraction or an exponent. A float is kept as the parser
/// renders the double it read: the shortest decimal text that reads back as
/// that double.
#[derive(Debug)]
pub enum JsonNumber {
    PosInt(u64),
    NegInt(i64),
    Float(String),
}

/// A parsed JSON value. Object members are held in key order with each key
/// once, as the parser's map holds them.
#[derive(Debug)]
pub enum JsonValue {
    Null,
    Bool(bool),
    Number(JsonNumber),
    Str(String),
    Array(Vec<JsonValue>),
    Object(Vec<(String, JsonValue)>),
}

#[verifier::external_type_specification]
#[verifier::external_body]
pub struct ExSerdeJsonValue(serde_json::Value);

/// The document that `serde_json::from_str::<serde_json::Value>` reads from a
/// text, in this module's terms; `None` when the text is not JSON.
pub uninterp spec fn json_document(text: Seq<char>) -> Option<JsonValue>;

/// Calls `serde_json::from_str::<serde_json::Value>` and converts the value
/// one variant for one. The contract claims only that the outcome is a
/// function of the text.
#[verifier::external_body]
pub fn parse_json(text: &str) -> (r: Option<JsonValue>)
    ensures
        r == json_document(text@),
{
    serde_json::from_str::<serde_json::Value>(text).ok().map(from_serde_value)
}

#[verifier::external_type_specification]
#[verifier::external_body]
pub struct ExSerdeJsonNumber(serde_json::Number);

/// Converts a `serde_json::Value` into a [`JsonValue`], variant for variant;
/// the conversion that `parse_json` applies to the parsed document.
#[verifier::external_body]
fn from_serde_value(value: serde_json::Value) -> JsonValue {
    match value {
        serde_json::Value::Null => JsonValue::Null,
        serde_json::Value::Bool(b) => JsonValue::Bool(b),
        serde_json::Value::Number(n) => JsonValue::Number(from_serde_number(n)),
        serde_json::Value::String(s) => JsonValue::Str(s),
        serde_json::Value::Array(a) => JsonValue::Array(a.into_iter().map(from_serde_value).collect()),
        serde_json::Value::Object(m) => JsonValue::Object(m.into_iter().map(|(k, v)| (k, from_serde_value(v))).collect()),
    }
}

/// Tells apart the three kinds of `serde_json::Number` by `as_u64` and
/// `as_i64`: a non-negative integer, a negative integer, or a float, which is
/// kept as the number's `Display` text.
#[verifier::external_body]
fn from_serde_number(n: serde_json::Number) -> JsonNumber {
    match (n.as_u64(), n.as_i64()) {
        (Some(u), _) => JsonNumber::PosInt(u),
        (None, Some(i)) => JsonNumber::NegInt(i),
        (None, None) => JsonNumber::Float(n.to_string()),
    }
}

pub open spec fn opt(x: Option<&JsonValue>) -> Option<JsonValue> {
    match x {
        Some(v) => Some(*v),
        None => None,
    }
}

/// The first member of `fields` named `key`.
pub open spec fn lookup(fields: Seq<(String, JsonValue)>, key: Seq<char>) -> Option<JsonValue>
    decreases fields.len(),
{
    if fields.len() == 0 {
        None
    } else if fields[0].0@ == key {
        Some(fields[0].1)
    } else {
        lookup(fields.drop_first(), key)
    }
}

/// Member `key` of an object; `None` for absent members and non-objects.
pub open spec fn member(v: JsonValue, key: Seq<char>) -> Option<JsonValue> {
    match v {
        JsonValue::Object(fields) => lookup(fields@, key),
        _ => None,
    }
}

pub open spec fn is_object(v: JsonValue) -> bool {
    v is Object
}

/// The element values of an array.
pub open spec fn elements(v: JsonValue) -> Seq<JsonValue> {
    match v {
        JsonValue::Array(items) => items@,
        _ => Seq::empty(),
    }
}

/// Field `index`, named `key`, of a struct read from `v`. A struct reads
/// from an object by member name, or from an array (its sequence form) by
/// position; anything else has no fields.
pub open spec fn field(v: JsonValue, index: nat, key: Seq<char>) -> Option<JsonValue> {
    match v {
        JsonValue::Object(fields) => lookup(fields@, key),
        JsonValue::Array(items) => if index < items@.len() {
            Some(items@[index as int])
        } else {
            None
        },
        _ => None,
    }
}

/// Whether a struct of `n` fields can be read from `v`: an object, or an
/// array of at most `n` elements (a longer one has trailing elements).
pub open spec fn struct_shaped(v: JsonValue, n: nat) -> bool {
    match v {
        JsonValue::Object(_) => true,
        JsonValue::Array(items) => items@.len() <= n,
        _ => false,
    }
}

/// A defaulted list field: absent is empty, otherwise an array.
pub open spec fn list_or_default(x: Option<JsonValue>) -> Option<Seq<JsonValue>> {
    match x {
        None => Some(Seq::empty()),
        Some(JsonValue::Array(items)) => Some(items@),
        Some(_) => None,
    }
}

/// A defaulted text field: absent is empty, a string is itself, anything
/// else is a type error.
pub open spec fn text_or_default(x: Option<JsonValue>) -> Result<Seq<char>, ()> {
    match x {
        None => Ok(Seq::empty()),
        Some(JsonValue::Str(s)) => Ok(s@),
        Some(_) => Err(()),
    }
}

/// A text field without a default: it must be present and a string.
pub open spec fn required_text(x: Option<JsonValue>) -> Result<Seq<char>, ()> {
    match x {
        Some(JsonValue::Str(s)) => Ok(s@),
        _ => Err(()),
    }
}

/// An optional text field: absent or `null` is `None`.
pub open spec fn optional_text(x: Option<JsonValue>) -> Result<Option<Seq<char>>, ()> {
    match x {
        None => Ok(None),
        Some(JsonValue::Null) => Ok(None),
        Some(JsonValue::Str(s)) => Ok(Some(s@)),
        Some(_) => Err(()),
    }
}

/// A JSON number read as an `i64`.
pub open spec fn number_i64(v: JsonValue) -> Option<i64> {
    match v {
        JsonValue::Number(JsonNumber::PosInt(n)) => if n <= i64::MAX {
            Some(n as i64)
        } else {
            None
        },
        JsonValue::Number(JsonNumber::NegInt(n)) => Some(n),
        _ => None,
    }
}

/// A JSON number read as a `u64`.
pub open spec fn number_u64(v: JsonValue) -> Option<u64> {
    match v {
        JsonValue::Number(JsonNumber::PosInt(n)) => Some(n),
        _ => None,
    }
}

/// A defaulted `i64` field: absent is 0.
pub open spec fn i64_or_default(x: Option<JsonValue>) -> Result<i64, ()> {
    match x {
        None => Ok(0),
        Some(v) => match number_i64(v) {
            Some(n) => Ok(n),
            None => Err(()),
        },
    }
}

/// An optional `i64` field: absent or `null` is `None`.
pub open spec fn optional_i64(x: Option<JsonValue>) -> Result<Option<i64>, ()> {
    match x {
        None => Ok(None),
        Some(JsonValue::Null) => Ok(None),
        Some(v) => match number_i64(v) {
            Some(n) => Ok(Some(n)),
            None => Err(()),
        },
    }
}

/// An optional `u64` field: absent or `null` is `None`.
pub open spec fn optional_u64(x: Option<JsonValue>) -> Result<Option<u64>, ()> {
    match x {
        None => Ok(None),
        Some(JsonValue::Null) => Ok(None),
        Some(v) => match number_u64(v) {
            Some(n) => Ok(Some(n)),
            None => Err(()),
        },
    }
}

/// An optional `bool` field: absent or `null` is `None`.
pub open spec fn optional_bool(x: Option<JsonValue>) -> Result<Option<bool>, ()> {
    match x {
        None => Ok(None),
        Some(JsonValue::Null) => Ok(None),
        Some(JsonValue::Bool(b)) => Ok(Some(b)),
        Some(_) => Err(()),
    }
}

/// Finds member `key` among `fields`.
pub fn find<'a>(fields: &'a Vec<(String, JsonValue)>, key: &str) -> (r: Option<&'a JsonValue>)
    ensures
        match r {
            Some(x) => lookup(fields@, key@) == Some(*x),
            None => lookup(fields@, key@).is_none(),
        },
{
    let n = fields.len();
    let mut i: usize = 0;
    assert(fields@.subrange(0, n as int) =~= fields@);
    while i < n
        invariant
            n == fields@.len(),
            i <= n,
            lookup(fields@, key@) == lookup(fields@.subrange(i as int, n as int), key@),
        decreases n - i,
    {
        let ghost rest = fields@.subrange(i as int, n as int);
        assert(rest[0] == fields@[i as int]);
        assert(rest.drop_first() =~= fields@.subrange(i + 1, n as int));
        if crate::text::str_eq(fields[i].0.as_str(), key) {
            return Some(&fields[i].1);
        }
        i = i + 1;
    }
    None
}

/// Member `key` of `v`, if `v` is an object that has it.
pub fn get<'a>(v: &'a JsonValue, key: &str) -> (r: Option<&'a JsonValue>)
    ensures
        match r {
            Some(x) => member(*v, key@) == Some(*x),
            None => member(*v, key@).is_none(),
        },
{
    match v {
        JsonValue::Object(fields) => find(fields, key),
        _ => None,
    }
}

/// Field `index`, named `key`, of a struct read from `v`.
pub fn get_field<'a>(v: &'a JsonValue, index: usize, key: &str) -> (r: Option<&'a JsonValue>)
    ensures
        match r {
            Some(x) => field(*v, index as nat, key@) == Some(*x),
            None => field(*v, index as nat, key@).is_none(),
        },
{
    match v {
        JsonValue::Object(fields) => find(fields, key),
        JsonValue::Array(items) => {
            if index < items.len() {
                Some(&items[index])
            } else {
                None
            }
        },
        _ => None,
    }
}

/// Whether a struct of `n` fields can be read from `v`.
pub fn is_struct_shaped(v: &JsonValue, n: usize) -> (r: bool)
    ensures
        r == struct_shaped(*v, n as nat),
{
    match v {
        JsonValue::Object(_) => true,
        JsonValue::Array(items) => items.len() <= n,
        _ => false,
    }
}

pub fn decode_text_or_default(x: Option<&JsonValue>) -> (r: Result<String, ()>)
    ensures
        match r {
            Ok(s) => text_or_default(opt(x)) == Ok::<Seq<char>, ()>(s@),
            Err(_) => text_or_default(opt(x)).is_err(),
        },
{
    match x {
        None => Ok(String::new()),
        Some(JsonValue::Str(s)) => Ok(s.clone()),
        Some(_) => Err(()),
    }
}

pub fn decode_required_text(x: Option<&JsonValue>) -> (r: Result<String, ()>)
    ensures
        match r {
            Ok(s) => required_text(opt(x)) == Ok::<Seq<char>, ()>(s@),
            Err(_) => required_text(opt(x)).is_err(),
        },
{
    match x {
        Some(JsonValue::Str(s)) => Ok(s.clone()),
        _ => Err(()),
    }
}

pub fn decode_optional_text(x: Option<&JsonValue>) -> (r: Result<Option<String>, ()>)
    ensures
        match r {
            Ok(Some(s)) => optional_text(opt(x)) == Ok::<Option<Seq<char>>, ()>(Some(s@)),
            Ok(None) => optional_text(opt(x)) == Ok::<Option<Seq<char>>, ()>(None),
            Err(_) => optional_text(opt(x)).is_err(),
        },
{
    match x {
        None => Ok(None),
        Some(JsonValue::Null) => Ok(None),
        Some(JsonValue::Str(s)) => Ok(Some(s.clone())),
        Some(_) => Err(()),
    }
}

pub fn read_i64(v: &JsonValue) -> (r: Option<i64>)
    ensures
        r == number_i64(*v),
{
    match v {
        JsonValue::Number(JsonNumber::PosInt(n)) => {
            if *n <= 0x7fff_ffff_ffff_ffff {
                Some(*n as i64)
            } else {
                None
            }
        },
        JsonValue::Number(JsonNumber::NegInt(n)) => Some(*n),
        _ => None,
    }
}

pub fn read_u64(v: &JsonValue) -> (r: Option<u64>)
    ensures
        r == number_u64(*v),
{
    match v {
        JsonValue::Number(JsonNumber::PosInt(n)) => Some(*n),
        _ => None,
    }
}

pub fn decode_i64_or_default(x: Option<&JsonValue>) -> (r: Result<i64, ()>)
    ensures
        match r {
            Ok(n) => i64_or_default(opt(x)) == Ok::<i64, ()>(n),
            Err(_) => i64_or_default(opt(x)).is_err(),
        },
{
    match x {
        None => Ok(0),
        Some(v) => match read_i64(v) {
            Some(n) => Ok(n),
            None => Err(()),
        },
    }
}

pub fn decode_optional_i64(x: Option<&JsonValue>) -> (r: Result<Option<i64>, ()>)
    ensures
        match r {
            Ok(n) => optional_i64(opt(x)) == Ok::<Option<i64>, ()>(n),
            Err(_) => optional_i64(opt(x)).is_err(),
        },
{
    match x {
        None => Ok(None),
        Some(JsonValue::Null) => Ok(None),
        Some(v) => match read_i64(v) {
            Some(n) => Ok(Some(n)),
            None => Err(()),
        },
    }
}

pub fn decode_optional_u64(x: Option<&JsonValue>) -> (r: Result<Option<u64>, ()>)
    ensures
        match r {
            Ok(n) => optional_u64(opt(x)) == Ok::<Option<u64>, ()>(n),
            Err(_) => optional_u64(opt(x)).is_err(),
        },
{
    match x {
        None => Ok(None),
        Some(JsonValue::Null) => Ok(None),
        Some(v) => match read_u64(v) {
            Some(n) => Ok(Some(n)),
            None => Err(()),
        },
    }
}

pub fn decode_optional_bool(x: Option<&JsonValue>) -> (r: Result<Option<bool>, ()>)
    ensures
        match r {
            Ok(b) => optional_bool(opt(x)) == Ok::<Option<bool>, ()>(b),
            Err(_) => optional_bool(opt(x)).is_err(),
        },
{
    match x {
        None => Ok(None),
        Some(JsonValue::Null) => Ok(None),
        Some(JsonValue::Bool(b)) => Ok(Some(*b)),
        Some(_) => Err(()),
    }
}

/// A defaulted text field of a struct read from `v`.
pub fn decode_text_field(v: &JsonValue, index: usize, key: &str) -> (r: Result<String, ()>)
    ensures
        match r {
            Ok(t) => text_or_default(field(*v, index as nat, key@)) == Ok::<Seq<char>, ()>(t@),
            Err(_) => text_or_default(field(*v, index as nat, key@)).is_err(),
        },
{
    decode_text_or_default(get_field(v, index, key))
}

/// A defaulted `i64` field of a struct read from `v`.
pub fn decode_i64_field(v: &JsonValue, index: usize, key: &str) -> (r: Result<i64, ()>)
    ensures
        match r {
            Ok(n) => i64_or_default(field(*v, index as nat, key@)) == Ok::<i64, ()>(n),
            Err(_) => i64_or_default(field(*v, index as nat, key@)).is_err(),
        },
{
    decode_i64_or_default(get_field(v, index, key))
}

/// An optional text field of a struct read from `v`.
pub fn decode_optional_text_field(v: &JsonValue, index: usize, key: &str) -> (r: Result<
    Option<String>,
    (),
>)
    ensures
        match r {
            Ok(Some(t)) => optional_text(field(*v, index as nat, key@)) == Ok::<
                Option<Seq<char>>,
                (),
            >(Some(t@)),
            Ok(None) => optional_text(field(*v, index as nat, key@)) == Ok::<
                Option<Seq<char>>,
                (),
            >(None),
            Err(_) => optional_text(field(*v, index as nat, key@)).is_err(),
        },
{
    decode_optional_text(get_field(v, index, key))
}

/// An optional `u64` field of a struct read from `v`.
pub fn decode_optional_u64_field(v: &JsonValue, index: usize, key: &str) -> (r: Result<
    Option<u64>,
    (),
>)
    ensures
        match r {
            Ok(n) => optional_u64(field(*v, index as nat, key@)) == Ok::<Option<u64>, ()>(n),
            Err(_) => optional_u64(field(*v, index as nat, key@)).is_err(),
        },
{
    decode_optional_u64(get_field(v, index, key))
}

/// An optional `i64` field of a struct read from `v`.
pub fn decode_optional_i64_field(v: &JsonValue, index: usize, key: &str) -> (r: Result<
    Option<i64>,
    (),
>)
    ensures
        match r {
            Ok(n) => optional_i64(field(*v, index as nat, key@)) == Ok::<Option<i64>, ()>(n),
            Err(_) => optional_i64(field(*v, index as nat, key@)).is_err(),
        },
{
    decode_optional_i64(get_field(v, index, key))
}

/// A required text field of a struct read from `v`.
pub fn decode_required_text_field(v: &JsonValue, index: usize, key: &str) -> (r: Result<String, ()>)
    ensures
        match r {
            Ok(t) => required_text(field(*v, index as nat, key@)) == Ok::<Seq<char>, ()>(t@),
            Err(_) => required_text(field(*v, index as nat, key@)).is_err(),
        },
{
    decode_required_text(get_field(v, index, key))
}

/// The position of member `key` among `fields`.
pub fn find_index(fields: &Vec<(String, JsonValue)>, key: &str) -> (r: Option<usize>)
    ensures
        match r {
            Some(i) => i < fields@.len() && lookup(fields@, key@) == Some(fields@[i as int].1),
            None => lookup(fields@, key@).is_none(),
        },
{
    let n = fields.len();
    let mut i: usize = 0;
    assert(fields@.subrange(0, n as int) =~= fields@);
    while i < n
        invariant
            n == fields@.len(),
            i <= n,
            lookup(fields@, key@) == lookup(fields@.subrange(i as int, n as int), key@),
        decreases n - i,
    {
        let ghost rest = fields@.subrange(i as int, n as int);
        assert(rest[0] == fields@[i as int]);
        assert(rest.drop_first() =~= fields@.subrange(i + 1, n as int));
        if crate::text::str_eq(fields[i].0.as_str(), key) {
            return Some(i);
        }
        i = i + 1;
    }
    None
}

/// Takes field `index`, named `key`, out of a struct read from `v`.
pub fn take_field(v: JsonValue, index: usize, key: &str) -> (r: Option<JsonValue>)
    ensures
        r == field(v, index as nat, key@),
{
    match v {
        JsonValue::Object(mut fields) => {
            let ghost before = fields@;
            match find_index(&fields, key) {
                Some(i) => {
                    let (_, value) = fields.remove(i);
                    assert(value == before[i as int].1);
                    Some(value)
                },
                None => None,
            }
        },
        JsonValue::Array(mut items) => {
            if index < items.len() {
                Some(items.remove(index))
            } else {
                None
            }
        },
        _ => None,
    }
}

/// The texts of a list of keys.
pub open spec fn str_views(keys: Seq<&str>) -> Seq<Seq<char>> {
    keys.map_values(|k: &str| k@)
}

/// The first member of `fields` whose name is one of `keys`.
pub open spec fn lookup_in(fields: Seq<(String, JsonValue)>, keys: Seq<Seq<char>>) -> Option<JsonValue>
    decreases fields.len(),
{
    if fields.len() == 0 {
        None
    } else if keys.contains(fields[0].0@) {
        Some(fields[0].1)
    } else {
        lookup_in(fields.drop_first(), keys)
    }
}

/// Field `index` of a struct read from `v`, where the field answers to any
/// of `keys` (its name and its aliases).
pub open spec fn field_in(v: JsonValue, index: nat, keys: Seq<Seq<char>>) -> Option<JsonValue> {
    match v {
        JsonValue::Object(fields) => lookup_in(fields@, keys),
        JsonValue::Array(items) => if index < items@.len() {
            Some(items@[index as int])
        } else {
            None
        },
        _ => None,
    }
}

/// Whether `name` is one of `keys`.
pub fn key_in(name: &str, keys: &[&str]) -> (r: bool)
    ensures
        r == str_views(keys@).contains(name@),
{
    let n = keys.len();
    let mut j: usize = 0;
    while j < n
        invariant
            n == keys@.len(),
            j <= n,
            forall|k: int| 0 <= k < j ==> str_views(keys@)[k] != name@,
        decreases n - j,
    {
        if crate::text::str_eq(keys[j], name) {
            assert(str_views(keys@)[j as int] == name@);
            return true;
        }
        j = j + 1;
    }
    assert(!str_views(keys@).contains(name@)) by {
        if str_views(keys@).contains(name@) {
            let k = choose|k: int| 0 <= k < str_views(keys@).len() && str_views(keys@)[k] == name@;
            assert(str_views(keys@)[k] != name@);
        }
    }
    false
}

/// Finds the first member named by any of `keys`.
pub fn find_in<'a>(fields: &'a Vec<(String, JsonValue)>, keys: &[&str]) -> (r: Option<&'a JsonValue>)
    ensures
        match r {
            Some(x) => lookup_in(fields@, str_views(keys@)) == Some(*x),
            None => lookup_in(fields@, str_views(keys@)).is_none(),
        },
{
    let n = fields.len();
    let mut i: usize = 0;
    assert(fields@.subrange(0, n as int) =~= fields@);
    while i < n
        invariant
            n == fields@.len(),
            i <= n,
            lookup_in(fields@, str_views(keys@)) == lookup_in(
                fields@.subrange(i as int, n as int),
                str_views(keys@),
            ),
        decreases n - i,
    {
        let ghost rest = fields@.subrange(i as int, n as int);
        assert(rest[0] == fields@[i as int]);
        assert(rest.drop_first() =~= fields@.subrange(i + 1, n as int));
        if key_in(fields[i].0.as_str(), keys) {
            return Some(&fields[i].1);
        }
        i = i + 1;
    }
    None
}

/// Field `index` of a struct read from `v`, under any of `keys`.
pub fn get_field_in<'a>(v: &'a JsonValue, index: usize, keys: &[&str]) -> (r: Option<&'a JsonValue>)
    ensures
        match r {
            Some(x) => field_in(*v, index as nat, str_views(keys@)) == Some(*x),
            None => field_in(*v, index as nat, str_views(keys@)).is_none(),
        },
{
    match v {
        JsonValue::Object(fields) => find_in(fields, keys),
        JsonValue::Array(items) => {
            if index < items.len() {
                Some(&items[index])
            } else {
                None
            }
        },
        _ => None,
    }
}

/// A defaulted text field of a struct read from `v`, under any of `keys`.
pub fn decode_text_in(v: &JsonValue, index: usize, keys: &[&str]) -> (r: Result<String, ()>)
    ensures
        match r {
            Ok(t) => text_or_default(field_in(*v, index as nat, str_views(keys@))) == Ok::<
                Seq<char>,
                (),
            >(t@),
            Err(_) => text_or_default(field_in(*v, index as nat, str_views(keys@))).is_err(),
        },
{
    decode_text_or_default(get_field_in(v, index, keys))
}

} // verus!
