//! Reads and rewrites the `version` field of a JSON project manifest.
//!
//! The manifest is an opaque JSON document handled by `serde_json`; this
//! module extracts the current version string from it, hands the string to
//! the verified release pipeline, and writes the new version string back,
//! leaving the rest of the document unchanged. Each JSON call stands
//! behind a trusted wrapper whose result — a function of its arguments
//! alone — is given a name, and `compute_release` is proved to follow the
//! pipeline those names spell out, step by step.

use vstd::prelude::*;
use crate::release::ReleaseError;
use crate::release::next_version_string;
use crate::release::spec_can_bump;
use crate::release::spec_next_version;
use crate::version::spec_version_chars;
use crate::version::spec_version_of;
use crate::version::valid_version_chars;
use crate::version_calculator::spec_classify;

verus! {

#[verifier::external_type_specification]
#[verifier::external_body]
pub struct ExValue(serde_json::Value);

/// The document that a text parses to, or `None` when the text is not
/// well-formed JSON.
pub uninterp spec fn json_doc_of(text: Seq<char>) -> Option<serde_json::Value>;

/// The value under `key` in a document, or `None` when the document is not
/// an object or the key is absent.
pub uninterp spec fn json_field_of(d: serde_json::Value, key: Seq<char>) -> Option<
    serde_json::Value,
>;

/// The text of a JSON string value, or `None` for every other kind of
/// value.
pub uninterp spec fn json_string_of(v: serde_json::Value) -> Option<Seq<char>>;

/// Whether a JSON value is an object.
pub uninterp spec fn json_is_object_of(v: serde_json::Value) -> bool;

/// An object with `key` set to the string `val` and everything else as in
/// `v` (meaningful only when `json_is_object_of(v)` holds).
pub uninterp spec fn json_with_field_of(
    v: serde_json::Value,
    key: Seq<char>,
    val: Seq<char>,
) -> serde_json::Value;

/// The pretty-printed rendering of a document, or `None` when it cannot be
/// serialized.
pub uninterp spec fn json_pretty_of(v: serde_json::Value) -> Option<Seq<char>>;

/// Relies on `serde_json::from_str`: parses a JSON document, returning
/// `None` when the text is not well-formed JSON. The result depends on the
/// text alone.
#[verifier::external_body]
fn json_parse(s: &str) -> (r: Option<serde_json::Value>)
    ensures
        r == json_doc_of(s@),
{
    serde_json::from_str::<serde_json::Value>(s).ok()
}

/// Relies on `serde_json::Value::get`: looks a key up, returning `None`
/// when the value is not an object or the key is absent. The result
/// depends on the value and the key alone.
#[verifier::external_body]
fn json_get<'a>(v: &'a serde_json::Value, key: &str) -> (r: Option<&'a serde_json::Value>)
    ensures
        match r {
            Some(f) => json_field_of(*v, key@) == Some(*f),
            None => json_field_of(*v, key@) is None,
        },
{
    v.get(key)
}

/// Relies on `serde_json::Value::as_str`: returns the text of a JSON
/// string value, and `None` for every other kind of value.
#[verifier::external_body]
fn json_as_string(v: &serde_json::Value) -> (r: Option<String>)
    ensures
        r is Some <==> json_string_of(*v) is Some,
        r is Some ==> Some(r->Some_0@) == json_string_of(*v),
{
    match v.as_str() {
        Some(s) => Some(s.to_owned()),
        None => None,
    }
}

/// Relies on `serde_json::Value::as_object_mut` and
/// `serde_json::Map::insert`: sets `key` to the string `val` when the
/// value is an object, and reports failure, leaving the value unchanged,
/// otherwise.
#[verifier::external_body]
fn json_insert_string(v: &mut serde_json::Value, key: &str, val: String) -> (r: bool)
    ensures
        r == json_is_object_of(*old(v)),
        r ==> *final(v) == json_with_field_of(*old(v), key@, val@),
        !r ==> *final(v) == *old(v),
{
    match v.as_object_mut() {
        Some(map) => {
            map.insert(key.to_owned(), serde_json::Value::String(val));
            true
        },
        None => false,
    }
}

/// Relies on `serde_json::to_string_pretty`: renders a JSON document with
/// fixed indentation and, keys being kept in a sorted map, a stable key
/// order. The rendering depends on the document alone.
#[verifier::external_body]
fn json_to_string_pretty(v: &serde_json::Value) -> (r: Option<String>)
    ensures
        r is Some <==> json_pretty_of(*v) is Some,
        r is Some ==> Some(r->Some_0@) == json_pretty_of(*v),
{
    serde_json::to_string_pretty(v).ok()
}

/// The current version string held in a manifest document: the text of its
/// `version` field, or `None` when the field is absent or not a string.
pub open spec fn spec_manifest_version(d: serde_json::Value) -> Option<Seq<char>> {
    match json_field_of(d, "version"@) {
        Some(f) => json_string_of(f),
        None => None,
    }
}

/// What a release computation returns for a manifest text and a batch of
/// commit messages: each error tied to the one step that fails it, and on
/// success the pretty-printed document with only the `version` field
/// replaced by the next version.
pub open spec fn spec_release_result(text: Seq<char>, msgs: Seq<Seq<char>>) -> Result<
    Seq<char>,
    ReleaseError,
> {
    match json_doc_of(text) {
        None => Err(ReleaseError::ManifestParse),
        Some(d) => match spec_manifest_version(d) {
            None => Err(ReleaseError::MissingVersion),
            Some(current) => {
                let bump = spec_classify(msgs);
                if !valid_version_chars(current) {
                    Err(ReleaseError::VersionFormat)
                } else if !spec_can_bump(spec_version_of(current), bump) {
                    Err(ReleaseError::VersionOverflow)
                } else if !json_is_object_of(d) {
                    Err(ReleaseError::ManifestWrite)
                } else {
                    let next = spec_version_chars(spec_next_version(spec_version_of(current), bump));
                    match json_pretty_of(json_with_field_of(d, "version"@, next)) {
                        Some(out) => Ok(out),
                        None => Err(ReleaseError::ManifestWrite),
                    }
                }
            },
        },
    }
}

/// Computes a release from a manifest document and the commit messages
/// since the last one: reads the manifest's `version` field, runs the
/// verified pipeline (`next_version_string`) on it, and returns the
/// manifest text with the field replaced by the next version and all other
/// content unchanged. Follows `spec_release_result` exactly: each error
/// comes on precisely the inputs that fail its step.
pub fn compute_release(manifest_text: &str, messages: &Vec<String>) -> (r: Result<
    String,
    ReleaseError,
>)
    ensures
        ({
            let expected = spec_release_result(manifest_text@, messages.deep_view());
            &&& r is Ok <==> expected is Ok
            &&& r is Ok ==> r->Ok_0@ == expected->Ok_0
            &&& r is Err ==> r->Err_0 == expected->Err_0
        }),
{
    let mut document = match json_parse(manifest_text) {
        Some(d) => d,
        None => {
            return Err(ReleaseError::ManifestParse);
        },
    };
    let ghost parsed = document;
    let current = {
        let field = match json_get(&document, "version") {
            Some(f) => f,
            None => {
                return Err(ReleaseError::MissingVersion);
            },
        };
        match json_as_string(field) {
            Some(s) => s,
            None => {
                return Err(ReleaseError::MissingVersion);
            },
        }
    };
    let next = match next_version_string(current.as_str(), messages) {
        Ok(n) => n,
        Err(e) => {
            return Err(e);
        },
    };
    let ghost next_chars = next@;
    if !json_insert_string(&mut document, "version", next) {
        return Err(ReleaseError::ManifestWrite);
    }
    proof {
        assert(document == json_with_field_of(parsed, "version"@, next_chars));
    }
    match json_to_string_pretty(&document) {
        Some(text) => Ok(text),
        None => Err(ReleaseError::ManifestWrite),
    }
}

} // verus!
