//! The calls into other crates, each behind a contract that is taken on trust.
//!
//! Everything else in this library is proved; what is said here of `dashmap`, `http`
//! (through `axum`), `serde_json` and `uuid` is not. The contracts speak of what a table
//! or a header map holds through the names declared here.
use axum::extract::Query;
use axum::http::uri::PathAndQuery;
use axum::http::{HeaderMap, HeaderValue, StatusCode, Uri};
use dashmap::DashMap;
use serde_json::Value;
use std::collections::HashSet;
use uuid::Uuid;
use vstd::prelude::*;

verus! {

/// `dashmap::DashMap`. Its operations take `&self`; the functions below take `&mut` for
/// those that change the table, so that nothing else can change it in between.
#[verifier::external_type_specification]
#[verifier::external_body]
#[verifier::reject_recursive_types(K)]
#[verifier::reject_recursive_types(V)]
#[verifier::reject_recursive_types(S)]
pub struct ExDashMap<K, V, S>(DashMap<K, V, S>);

/// `http::HeaderMap`.
#[verifier::external_type_specification]
#[verifier::external_body]
#[verifier::reject_recursive_types(T)]
pub struct ExHeaderMap<T>(HeaderMap<T>);

/// `http::HeaderValue`, which a `HeaderMap` holds.
#[verifier::external_type_specification]
#[verifier::external_body]
pub struct ExHeaderValue(HeaderValue);

/// `http::StatusCode`, carried from the application to the response.
#[verifier::external_type_specification]
#[verifier::external_body]
pub struct ExStatusCode(StatusCode);

/// `serde_json::Error`, carried from the application to the error message.
#[verifier::external_type_specification]
#[verifier::external_body]
pub struct ExJsonError(serde_json::Error);

/// The sinks that a connection table holds, by connection.
pub uninterp spec fn connection_table(table: DashMap<u128, u64>) -> Map<u128, u64>;

/// The subscribers that a subscription table holds, by topic.
pub uninterp spec fn subscription_table(table: DashMap<String, HashSet<u128>>) -> Map<
    Seq<char>,
    Set<u128>,
>;

/// `DashMap::default`: the table is empty.
#[verifier::external_body]
pub(crate) fn new_connection_table() -> (table: DashMap<u128, u64>)
    ensures
        connection_table(table).dom() == Set::<u128>::empty(),
{
    DashMap::default()
}

/// `DashMap::insert`: the key now has the new value, in place of an old one where it had
/// one; every other key is as before.
#[verifier::external_body]
pub(crate) fn insert_connection(table: &mut DashMap<u128, u64>, id: u128, sink: u64)
    ensures
        connection_table(*final(table)) == connection_table(*old(table)).insert(id, sink),
{
    table.insert(id, sink);
}

/// `DashMap::remove`: the key is gone; every other key is as before.
#[verifier::external_body]
pub(crate) fn remove_connection(table: &mut DashMap<u128, u64>, id: u128)
    ensures
        connection_table(*final(table)) == connection_table(*old(table)).remove(id),
{
    table.remove(&id);
}

/// `DashMap::get`, with the value copied out: the value of the key, or `None` where the
/// table does not have the key.
#[verifier::external_body]
pub(crate) fn get_connection(table: &DashMap<u128, u64>, id: u128) -> (sink: Option<u64>)
    ensures
        match sink {
            Some(sink) => connection_table(*table).contains_key(id) && sink == connection_table(
                *table,
            )[id],
            None => !connection_table(*table).contains_key(id),
        },
{
    table.get(&id).map(|entry| *entry.value())
}

/// `DashMap::len`: how many keys the table has.
#[verifier::external_body]
pub(crate) fn count_connections(table: &DashMap<u128, u64>) -> (count: usize)
    ensures
        count == connection_table(*table).dom().len(),
{
    table.len()
}

/// `DashMap::default`: the table is empty.
#[verifier::external_body]
pub(crate) fn new_subscription_table() -> (table: DashMap<String, HashSet<u128>>)
    ensures
        subscription_table(table).dom() == Set::<Seq<char>>::empty(),
{
    DashMap::default()
}

/// `DashMap::insert`: the key now has the new value, in place of an old one where it had
/// one; every other key is as before.
#[verifier::external_body]
pub(crate) fn insert_subscribers(
    table: &mut DashMap<String, HashSet<u128>>,
    topic: String,
    subscribers: HashSet<u128>,
)
    ensures
        subscription_table(*final(table)) == subscription_table(*old(table)).insert(
            topic@,
            subscribers@,
        ),
{
    table.insert(topic, subscribers);
}

/// `DashMap::remove`, of which the value is kept: the key is gone, every other key is as
/// before, and the value that the key had comes back, where it had one.
#[verifier::external_body]
pub(crate) fn remove_subscribers(
    table: &mut DashMap<String, HashSet<u128>>,
    topic: &str,
) -> (subscribers: Option<HashSet<u128>>)
    ensures
        subscription_table(*final(table)) == subscription_table(*old(table)).remove(topic@),
        match subscribers {
            Some(subscribers) => subscription_table(*old(table)).contains_key(topic@)
                && subscribers@ == subscription_table(*old(table))[topic@],
            None => !subscription_table(*old(table)).contains_key(topic@),
        },
{
    table.remove(topic).map(|entry| entry.1)
}

/// `DashMap::get`, with the value copied out: the value of the key, or `None` where the
/// table does not have the key.
#[verifier::external_body]
pub(crate) fn get_subscribers(
    table: &DashMap<String, HashSet<u128>>,
    topic: &str,
) -> (subscribers: Option<HashSet<u128>>)
    ensures
        match subscribers {
            Some(subscribers) => subscription_table(*table).contains_key(topic@) && subscribers@
                == subscription_table(*table)[topic@],
            None => !subscription_table(*table).contains_key(topic@),
        },
{
    table.get(topic).map(|entry| entry.value().clone())
}

/// `DashMap::iter`, with the keys copied out: every key of the table once, in an order
/// that is left open.
#[verifier::external_body]
pub(crate) fn subscribed_topics(table: &DashMap<String, HashSet<u128>>) -> (topics: Vec<String>)
    ensures
        topics@.map_values(|topic: String| topic@).no_duplicates(),
        topics@.map_values(|topic: String| topic@).to_set() == subscription_table(*table).dom(),
{
    table.iter().map(|entry| entry.key().clone()).collect()
}

/// `DashMap::len`: how many keys the table has.
#[verifier::external_body]
pub(crate) fn count_topics(table: &DashMap<String, HashSet<u128>>) -> (count: usize)
    ensures
        count == subscription_table(*table).dom().len(),
{
    table.len()
}

/// What a header map holds: under each header name, in lower case, the bytes of the first
/// value of that header.
pub uninterp spec fn first_header_values(headers: HeaderMap<HeaderValue>) -> Map<
    Seq<char>,
    Seq<u8>,
>;

/// `name` with the letters A to Z in lower case.
pub open spec fn lower_case(name: Seq<char>) -> Seq<char> {
    name.map_values(
        |c: char|
            if 'A' <= c && c <= 'Z' {
                ((c as u32) + 32) as char
            } else {
                c
            },
    )
}

/// `HeaderMap::get` by a name in any case: the first value of that header, as bytes.
#[verifier::external_body]
pub(crate) fn first_header(headers: &HeaderMap<HeaderValue>, name: &str) -> (value: Option<
    Vec<u8>,
>)
    ensures
        match value {
            Some(value) => first_header_values(*headers).contains_key(lower_case(name@)) && value@
                == first_header_values(*headers)[lower_case(name@)],
            None => !first_header_values(*headers).contains_key(lower_case(name@)),
        },
{
    headers.get(name).map(|value| value.as_bytes().to_vec())
}

/// Whether a byte is visible ASCII, a space or a tab.
pub open spec fn is_visible(byte: u8) -> bool {
    32 <= byte < 127 || byte == 9
}

/// `HeaderValue::to_str`: the text of a header value, which it has where all of its bytes
/// are visible ASCII, spaces or tabs. (`HeaderValue::from_bytes` takes every such value.)
#[verifier::external_body]
pub(crate) fn header_text(value: &[u8]) -> (text: Option<String>)
    ensures
        match text {
            Some(text) => (forall|i: int|
                0 <= i < value@.len() ==> is_visible(#[trigger] value@[i])) && text@
                == value@.map_values(|byte: u8| byte as char),
            None => exists|i: int| 0 <= i < value@.len() && !is_visible(#[trigger] value@[i]),
        },
{
    let value = HeaderValue::from_bytes(value).ok()?;
    value.to_str().ok().map(|text| text.to_owned())
}

/// The names and values in the query string of a URI, decoded, in the order in which they
/// stand there. A query ends before a `#`, so that of a text with one the part in front is
/// decoded; `None` where that cannot be the query of a URI.
pub uninterp spec fn decoded_query(query: Seq<char>) -> Option<Seq<(Seq<char>, Seq<char>)>>;

/// Names and values as the characters that they hold.
pub open spec fn pairs_view(pairs: Seq<(String, String)>) -> Seq<(Seq<char>, Seq<char>)> {
    pairs.map_values(|pair: (String, String)| (pair.0@, pair.1@))
}

/// `axum::extract::Query::try_from_uri` on a URI with the given query: what it decodes
/// depends on the query alone.
#[verifier::external_body]
pub(crate) fn decode_query(query: &str) -> (pairs: Option<Vec<(String, String)>>)
    ensures
        match pairs {
            Some(pairs) => decoded_query(query@) == Some(pairs_view(pairs@)),
            None => decoded_query(query@) is None,
        },
{
    let uri: Uri = PathAndQuery::try_from(format!("?{}", query)).ok()?.into();
    Query::<Vec<(String, String)>>::try_from_uri(&uri).ok().map(|decoded| decoded.0)
}

/// The JSON text of the object that is made of the given members, all of them strings.
pub uninterp spec fn json_object_text(members: Seq<(Seq<char>, Seq<char>)>) -> Seq<char>;

/// `serde_json::to_string` on an object of strings. It cannot fail there: every key is a
/// string, and writing to memory does not fail.
#[verifier::external_body]
pub(crate) fn json_object(members: &Vec<(String, String)>) -> (text: Result<
    String,
    serde_json::Error,
>)
    ensures
        text matches Ok(text) && text@ == json_object_text(pairs_view(members@)),
{
    let object: serde_json::Map<String, Value> = members.iter().map(
        |member| (member.0.clone(), Value::String(member.1.clone())),
    ).collect();
    serde_json::to_string(&Value::Object(object))
}

/// Whether `id` is a version 4 UUID of the variant that RFC 9562 describes.
pub open spec fn is_random_uuid(id: u128) -> bool {
    (id >> 76) & 0xf == 4 && (id >> 62) & 0x3 == 2
}

/// `Uuid::new_v4`, as a number. The bits other than those of the version and the variant
/// are random, so that nothing more is said of them, not even that two ids differ.
#[verifier::external_body]
pub(crate) fn random_id() -> (id: u128)
    ensures
        is_random_uuid(id),
{
    Uuid::new_v4().as_u128()
}

} // verus!
