//! Declarations of the outside types that the library carries through its
//! values without looking inside them.
use vstd::prelude::*;

verus! {

/// A JSON document of `serde_json`; the library only stores and moves it.
#[verifier::external_type_specification]
#[verifier::external_body]
pub struct ExJsonValue(serde_json::Value);

/// The error of `serde_json` when a value cannot be converted.
#[verifier::external_type_specification]
#[verifier::external_body]
pub struct ExJsonError(serde_json::Error);

/// `Clone::clone` of `serde_json::Value` (derived there): a deep copy, the same
/// JSON value.
pub assume_specification[ <serde_json::Value as core::clone::Clone>::clone ](
    v: &serde_json::Value,
) -> (res: serde_json::Value)
    ensures
        res == *v,
;

/// What `serde_json::Value::is_object` answers for `v`: whether it is a JSON
/// object.
pub uninterp spec fn json_value_is_object(v: serde_json::Value) -> bool;

/// The JSON object that `serde_json::Value::from_iter` builds from these
/// `(key, value)` entries.
pub uninterp spec fn json_object_of(entries: Seq<(Seq<char>, serde_json::Value)>) -> serde_json::Value;

/// The JSON string of these characters, as `serde_json::Value::from(&str)` makes it.
pub uninterp spec fn json_string_of(s: Seq<char>) -> serde_json::Value;

/// The JSON boolean `b`, as `serde_json::Value::from(bool)` makes it.
pub uninterp spec fn json_bool_of(b: bool) -> serde_json::Value;

/// The `(key, value)` entries of the JSON object `v`, in the order its map
/// walks them (`Map::iter`).
pub uninterp spec fn json_entries_of(v: serde_json::Value) -> Seq<(Seq<char>, serde_json::Value)>;

/// The JSON value `v` after `v[key] = value`: on an object, the entry for `key`
/// set to `value`.
pub uninterp spec fn json_with_field(v: serde_json::Value, key: Seq<char>, value: serde_json::Value) -> serde_json::Value;

/// The JSON array of these values (`Value::Array`).
pub uninterp spec fn json_array_of(items: Seq<serde_json::Value>) -> serde_json::Value;

/// The entries with their keys as characters.
pub open spec fn entries_view(entries: Seq<(String, serde_json::Value)>) -> Seq<(Seq<char>, serde_json::Value)> {
    entries.map_values(|e: (String, serde_json::Value)| (e.0@, e.1))
}

/// `serde_json::Value::is_object`; its answer is named `json_value_is_object`.
#[verifier::external_body]
pub(crate) fn json_is_object(v: &serde_json::Value) -> (r: bool)
    ensures
        r == json_value_is_object(*v),
{
    v.is_object()
}

/// `serde_json::Value::from_iter` over `(key, value)` entries: the JSON object of
/// these entries (a `Value::Object`), named `json_object_of`.
#[verifier::external_body]
pub(crate) fn json_object(entries: Vec<(String, serde_json::Value)>) -> (r: serde_json::Value)
    ensures
        r == json_object_of(entries_view(entries@)),
        json_value_is_object(r),
{
    serde_json::Value::from_iter(entries)
}

/// `serde_json::Value::as_object`, walked with `Map::iter`: the entries of a
/// JSON object (keys and values copied), named `json_entries_of`; `None` for
/// any other value.
#[verifier::external_body]
pub(crate) fn json_entries(v: &serde_json::Value) -> (r: Option<Vec<(String, serde_json::Value)>>)
    ensures
        r is Some <==> json_value_is_object(*v),
        r matches Some(e) ==> entries_view(e@) == json_entries_of(*v),
{
    v.as_object().map(|m| m.iter().map(|(k, x)| (k.clone(), x.clone())).collect())
}

/// `v[key] = value` (`IndexMut` of `serde_json::Value`) on a JSON object: sets
/// the entry for `key`, named `json_with_field`; the value stays an object. (On
/// values other than objects and `null` the indexing panics, hence the
/// requirement.)
#[verifier::external_body]
pub(crate) fn json_set(v: &mut serde_json::Value, key: &str, value: serde_json::Value)
    requires
        json_value_is_object(*old(v)),
    ensures
        *final(v) == json_with_field(*old(v), key@, value),
        json_value_is_object(*final(v)),
{
    v[key] = value;
}

/// `serde_json::Value::Array`: the JSON array of `items`, named `json_array_of`.
#[verifier::external_body]
pub(crate) fn json_array(items: Vec<serde_json::Value>) -> (r: serde_json::Value)
    ensures
        r == json_array_of(items@),
{
    serde_json::Value::Array(items)
}

/// `serde_json::Value::from` a string: the JSON string of these characters,
/// named `json_string_of`.
#[verifier::external_body]
pub(crate) fn json_string(s: &str) -> (r: serde_json::Value)
    ensures
        r == json_string_of(s@),
{
    serde_json::Value::from(s)
}

/// `serde_json::Value::from` a boolean: the JSON `true` or `false`, named
/// `json_bool_of`.
#[verifier::external_body]
pub(crate) fn json_bool(b: bool) -> (r: serde_json::Value)
    ensures
        r == json_bool_of(b),
{
    serde_json::Value::from(b)
}

/// An HTTP client of `reqwest`; the library only stores it.
#[verifier::external_type_specification]
#[verifier::external_body]
pub struct ExHttpClient(reqwest::Client);

/// `Clone::clone` of `reqwest::Client`: another handle on the same connection
/// pool. Nothing is claimed of it.
pub assume_specification[ <reqwest::Client as core::clone::Clone>::clone ](
    c: &reqwest::Client,
) -> (res: reqwest::Client);

/// The span of `secs` whole seconds, as `Duration::from_secs` makes it.
pub uninterp spec fn duration_of_secs(secs: u64) -> core::time::Duration;

/// `Duration::from_secs`: the span of `secs` seconds, named `duration_of_secs`.
pub assume_specification[ core::time::Duration::from_secs ](secs: u64) -> (res:
    core::time::Duration)
    ensures
        res == duration_of_secs(secs),
;

/// The request timeout that a `reqwest::Client` was built with
/// (`ClientBuilder::timeout`).
pub uninterp spec fn client_timeout(client: reqwest::Client) -> core::time::Duration;

/// `reqwest::Client::builder().timeout(timeout).build()`: an HTTP client whose
/// requests time out after `timeout`. Building it fails only when the TLS
/// backend cannot be set up, which no argument causes; it then panics with the
/// message of the original ("Unable to build HTTP client"). The client's
/// requests time out after `timeout`, as `ClientBuilder::timeout` documents;
/// that setting is named `client_timeout`.
#[verifier::external_body]
pub(crate) fn build_http_client(timeout: std::time::Duration) -> (r: reqwest::Client)
    ensures
        client_timeout(r) == timeout,
{
    reqwest::Client::builder().timeout(timeout).build().expect("Unable to build HTTP client")
}

} // verus!
