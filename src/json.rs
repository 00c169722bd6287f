use vstd::prelude::*;

verus! {

/// The mathematical value of a JSON document. An object is its entries in
/// order; a number is the text that is printed for it.
pub enum Json {
    Null,
    Bool(bool),
    Number(Seq<char>),
    Str(Seq<char>),
    Arr(Seq<Json>),
    Obj(Seq<(Seq<char>, Json)>),
}

/// Some entry of the object has the key.
pub open spec fn has_key(fs: Seq<(Seq<char>, Json)>, k: Seq<char>) -> bool {
    exists|i: int| 0 <= i < fs.len() && (#[trigger] fs[i]).0 == k
}

/// The value of the object's entry with the key, if any.
pub open spec fn obj_get(fs: Seq<(Seq<char>, Json)>, k: Seq<char>) -> Option<Json> {
    if has_key(fs, k) {
        Some(fs[choose|i: int| 0 <= i < fs.len() && (#[trigger] fs[i]).0 == k].1)
    } else {
        None
    }
}

/// The value holds no number and nests at most `d` arrays or objects deep.
pub open spec fn shallow(j: Json, d: nat) -> bool
    decreases d,
{
    match j {
        Json::Number(_) => false,
        Json::Arr(items) => d > 0 && forall|i: int|
            0 <= i < items.len() ==> shallow(#[trigger] items[i], (d - 1) as nat),
        Json::Obj(fs) => d > 0 && forall|i: int|
            0 <= i < fs.len() ==> shallow((#[trigger] fs[i]).1, (d - 1) as nat),
        _ => true,
    }
}

/// The nesting that the values of this library stay within, well inside
/// what `serde_json::from_str` reads back.
pub open spec fn read_back_depth() -> nat {
    64
}

#[verifier::external_type_specification]
#[verifier::external_body]
pub struct ExValue(serde_json::Value);

#[verifier::external_type_specification]
#[verifier::external_body]
pub struct ExError(serde_json::Error);

#[verifier::external_type_specification]
#[verifier::external_body]
#[verifier::reject_recursive_types(K)]
#[verifier::reject_recursive_types(V)]
pub struct ExMap<K, V>(serde_json::Map<K, V>);

/// What a `serde_json::Value` holds.
pub uninterp spec fn json_of(v: serde_json::Value) -> Json;

/// The entries of a `serde_json::Map` of string keys, in order.
pub uninterp spec fn fields_of(m: serde_json::Map<String, serde_json::Value>) -> Seq<(Seq<char>, Json)>;

/// The indented text that `serde_json::to_string_pretty` writes for a value.
pub uninterp spec fn pretty_text(j: Json) -> Seq<char>;

/// What `serde_json::from_str` reads from a text, or `None` where it fails.
pub uninterp spec fn parsed_text(s: Seq<char>) -> Option<Json>;

/// Relies on `serde_json::Value::String`: a string value.
#[verifier::external_body]
pub(crate) fn json_string(s: String) -> (r: serde_json::Value)
    ensures
        json_of(r) == Json::Str(s@),
{
    serde_json::Value::String(s)
}

/// Relies on `serde_json::Value::Bool`: a boolean value.
#[verifier::external_body]
pub(crate) fn json_bool(b: bool) -> (r: serde_json::Value)
    ensures
        json_of(r) == Json::Bool(b),
{
    serde_json::Value::Bool(b)
}

/// Relies on `serde_json::Value::Null`.
#[verifier::external_body]
pub(crate) fn json_null() -> (r: serde_json::Value)
    ensures
        json_of(r) == Json::Null,
{
    serde_json::Value::Null
}

/// Relies on `serde_json::Value::Array`: an array of the given items, in order.
#[verifier::external_body]
pub(crate) fn json_array(items: Vec<serde_json::Value>) -> (r: serde_json::Value)
    ensures
        json_of(r) == Json::Arr(items@.map_values(|v: serde_json::Value| json_of(v))),
{
    serde_json::Value::Array(items)
}

/// Relies on `serde_json::Map::new`: an empty map.
#[verifier::external_body]
pub(crate) fn json_fields_new() -> (r: serde_json::Map<String, serde_json::Value>)
    ensures
        fields_of(r).len() == 0,
{
    serde_json::Map::new()
}

/// Relies on `serde_json::Map::insert` with the `preserve_order` feature
/// (an `IndexMap`): a new key's entry goes at the end.
#[verifier::external_body]
pub(crate) fn json_fields_insert(
    m: &mut serde_json::Map<String, serde_json::Value>,
    k: String,
    v: serde_json::Value,
)
    requires
        !has_key(fields_of(*old(m)), k@),
    ensures
        fields_of(*final(m)) == fields_of(*old(m)).push((k@, json_of(v))),
{
    m.insert(k, v);
}

/// Relies on `serde_json::Value::Object`: an object with the map's fields.
#[verifier::external_body]
pub(crate) fn json_object(m: serde_json::Map<String, serde_json::Value>) -> (r: serde_json::Value)
    ensures
        json_of(r) == Json::Obj(fields_of(m)),
{
    serde_json::Value::Object(m)
}

/// Relies on `serde_json::Value::get` with a string key: the field of an
/// object, and `None` for a missing key or a value that is no object.
#[verifier::external_body]
pub(crate) fn json_get<'a>(v: &'a serde_json::Value, key: &str) -> (r: Option<&'a serde_json::Value>)
    ensures
        match r {
            Some(x) => json_of(*v) is Obj && obj_get(json_of(*v)->Obj_0, key@) == Some(json_of(*x)),
            None => !(json_of(*v) is Obj && has_key(json_of(*v)->Obj_0, key@)),
        },
{
    v.get(key)
}

/// Relies on `serde_json::Value::as_str`: the text of a string value.
#[verifier::external_body]
pub(crate) fn json_as_string(v: &serde_json::Value) -> (r: Option<String>)
    ensures
        match r {
            Some(s) => json_of(*v) == Json::Str(s@),
            None => !(json_of(*v) is Str),
        },
{
    v.as_str().map(|s| s.to_string())
}

/// Relies on `serde_json::Value::as_bool`: the boolean of a boolean value.
#[verifier::external_body]
pub(crate) fn json_as_bool(v: &serde_json::Value) -> (r: Option<bool>)
    ensures
        match r {
            Some(b) => json_of(*v) == Json::Bool(b),
            None => !(json_of(*v) is Bool),
        },
{
    v.as_bool()
}

/// Relies on `serde_json::Value::as_array`: the items of an array value.
#[verifier::external_body]
pub(crate) fn json_as_array<'a>(v: &'a serde_json::Value) -> (r: Option<&'a Vec<serde_json::Value>>)
    ensures
        match r {
            Some(a) => json_of(*v) == Json::Arr(a@.map_values(|x: serde_json::Value| json_of(x))),
            None => !(json_of(*v) is Arr),
        },
{
    v.as_array()
}

/// Relies on `serde_json::Value::is_null`.
#[verifier::external_body]
pub(crate) fn json_is_null(v: &serde_json::Value) -> (r: bool)
    ensures
        r == (json_of(*v) is Null),
{
    v.is_null()
}

/// Relies on `serde_json::to_string_pretty`: the indented text of a value.
/// It fails only where a `Serialize` impl fails or a map has keys that are
/// not strings, neither of which a `Value` has. Every value writes at least
/// one character. `serde_json::from_str` reads
/// the text back to the same value where no number is in it (a float may be
/// read back as a neighbouring one) and it nests within the parser's limit.
#[verifier::external_body]
pub(crate) fn json_to_pretty(v: &serde_json::Value) -> (r: Result<String, serde_json::Error>)
    ensures
        r is Ok,
        r is Ok ==> r->Ok_0@ == pretty_text(json_of(*v)),
        r is Ok ==> r->Ok_0@.len() > 0,
        r is Ok && shallow(json_of(*v), read_back_depth()) ==> parsed_text(r->Ok_0@) == Some(
            json_of(*v),
        ),
{
    serde_json::to_string_pretty(v)
}

/// Relies on the `Display` of `serde_json::Error`: the error's description.
#[verifier::external_body]
pub(crate) fn json_error_text(e: &serde_json::Error) -> (r: String) {
    e.to_string()
}

/// Relies on `serde_json::from_str` into a `Value`: the document that the
/// text holds, or an error where it is not JSON.
#[verifier::external_body]
pub(crate) fn json_parse(s: &str) -> (r: Result<serde_json::Value, serde_json::Error>)
    ensures
        match r {
            Ok(v) => parsed_text(s@) == Some(json_of(v)),
            Err(_) => parsed_text(s@) is None,
        },
{
    serde_json::from_str(s)
}

} // verus!
