//! Typed access to the well-known metadata keys.
//!
//! `Metadata` is a `BTreeMap<String, String>`; its entries are described by
//! the text of their keys and values ([`texts`]).

use vstd::prelude::*;

use crate::event::Metadata;

verus! {

/// Ties together every event that stems from the same originating request.
pub const CORRELATION_ID: &'static str = "correlation_id";

/// The id of the event/command that directly caused this one.
pub const CAUSATION_ID: &'static str = "causation_id";

/// Who (user, service) triggered the change.
pub const ACTOR: &'static str = "actor";

/// The entries of `m`, by the text of their keys and values.
pub open spec fn texts(m: Map<String, String>) -> Map<Seq<char>, Seq<char>> {
    Map::new(
        |t: Seq<char>| exists|k: String| k@ == t && #[trigger] m.contains_key(k),
        |t: Seq<char>| m[choose|k: String| k@ == t && #[trigger] m.contains_key(k)]@,
    )
}

/// What `map` holds under the key text `key`, as `found` reports it.
pub open spec fn found_as(map: Map<String, String>, key: Seq<char>, found: Option<&str>) -> bool {
    match found {
        Some(v) => texts(map).contains_key(key) && texts(map)[key] == v@,
        None => !texts(map).contains_key(key),
    }
}

/// Ergonomic access to the well-known [`Metadata`] keys.
pub trait MetadataExt: Sized {
    /// Set the correlation id (builder style).
    fn with_correlation_id(self, id: &str) -> Self;

    /// Set the causation id (builder style).
    fn with_causation_id(self, id: &str) -> Self;

    /// Set the actor (builder style).
    fn with_actor(self, actor: &str) -> Self;

    /// The correlation id, if present.
    fn correlation_id(&self) -> Option<&str>;

    /// The causation id, if present.
    fn causation_id(&self) -> Option<&str>;

    /// The actor, if present.
    fn actor(&self) -> Option<&str>;
}

/// Sets `key` to `value` in `map`.
///
/// Trusted: calls `BTreeMap::insert`. A `BTreeMap` finds keys by their
/// `Ord`, and `String`s are ordered by their text, so afterwards the entry
/// whose key has `key`'s text holds `value`, and every other entry is as it
/// was.
#[verifier::external_body]
fn insert_text(map: &mut Metadata, key: String, value: String)
    ensures
        texts(final(map)@) == texts(old(map)@).insert(key@, value@),
{
    map.insert(key, value);
}

/// The value `map` holds under the text of `key`.
///
/// Trusted: calls `BTreeMap::get`, which finds the entry whose key compares
/// equal to `key`; `String`s compare equal exactly when their text is the
/// same.
#[verifier::external_body]
fn get_text<'a>(map: &'a Metadata, key: &str) -> (r: Option<&'a String>)
    ensures
        match r {
            Some(v) => texts(map@).contains_key(key@) && texts(map@)[key@] == v@,
            None => !texts(map@).contains_key(key@),
        },
{
    map.get(key)
}

/// `map` with `key` set to `value`.
fn set_key(map: Metadata, key: &str, value: &str) -> (r: Metadata)
    ensures
        texts(r@) == texts(map@).insert(key@, value@),
{
    let mut map = map;
    insert_text(&mut map, key.to_owned(), value.to_owned());
    map
}

/// What `map` holds under `key`.
fn get_key<'a>(map: &'a Metadata, key: &str) -> (r: Option<&'a str>)
    ensures
        found_as(map@, key@, r),
{
    match get_text(map, key) {
        Some(v) => Some(v.as_str()),
        None => None,
    }
}

impl MetadataExt for Metadata {
    fn with_correlation_id(self, id: &str) -> (r: Self)
        ensures
            texts(r@) == texts(self@).insert(CORRELATION_ID@, id@),
    {
        set_key(self, CORRELATION_ID, id)
    }

    fn with_causation_id(self, id: &str) -> (r: Self)
        ensures
            texts(r@) == texts(self@).insert(CAUSATION_ID@, id@),
    {
        set_key(self, CAUSATION_ID, id)
    }

    fn with_actor(self, actor: &str) -> (r: Self)
        ensures
            texts(r@) == texts(self@).insert(ACTOR@, actor@),
    {
        set_key(self, ACTOR, actor)
    }

    fn correlation_id(&self) -> (r: Option<&str>)
        ensures
            found_as(self@, CORRELATION_ID@, r),
    {
        get_key(self, CORRELATION_ID)
    }

    fn causation_id(&self) -> (r: Option<&str>)
        ensures
            found_as(self@, CAUSATION_ID@, r),
    {
        get_key(self, CAUSATION_ID)
    }

    fn actor(&self) -> (r: Option<&str>)
        ensures
            found_as(self@, ACTOR@, r),
    {
        get_key(self, ACTOR)
    }
}

/// A key that was just set reads back with the value it was set to, and
/// setting it leaves every other key as it was.
pub proof fn law_set_then_get(
    original: Map<String, String>,
    updated: Map<String, String>,
    key: Seq<char>,
    value: Seq<char>,
    other: Seq<char>,
)
    requires
        texts(updated) == texts(original).insert(key, value),
        other != key,
    ensures
        texts(updated).contains_key(key),
        texts(updated)[key] == value,
        texts(updated).contains_key(other) == texts(original).contains_key(other),
        texts(original).contains_key(other) ==> texts(updated)[other] == texts(original)[other],
{
}

} // verus!
