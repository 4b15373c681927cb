//! Matching a request body against a JSON document.

use vstd::prelude::*;
use crate::config::Matcher;
use crate::config::MatcherView;
use crate::matchers::MatchError;

verus! {

/// A JSON document of `serde_json`, carried through as it is. In specifications two
/// values are equal exactly when they are the same document: the same kind of value at
/// every place, the same scalars, the same array elements in the same order, the same
/// object keys with the same values.
#[verifier::external_type_specification]
#[verifier::external_body]
pub struct ExJsonValue(serde_json::Value);

/// Why `serde_json` could not read a text.
#[verifier::external_type_specification]
#[verifier::external_body]
pub struct ExJsonError(serde_json::Error);

/// The document that `serde_json::from_str` reads from `text`; `None` where it rejects
/// the text.
pub uninterp spec fn json_parse(text: Seq<char>) -> Option<serde_json::Value>;

/// Calls `serde_json::from_str` for a `serde_json::Value`. Trusted: what comes back
/// depends on the text alone, so it is the document named by [`json_parse`], or an error
/// exactly where `json_parse` names none.
#[verifier::external_body]
pub(crate) fn parse_json(text: &str) -> (parsed: Result<serde_json::Value, serde_json::Error>)
    ensures
        match parsed {
            Ok(document) => json_parse(text@) == Some(document),
            Err(_) => json_parse(text@).is_none(),
        },
{
    serde_json::from_str::<serde_json::Value>(text)
}

/// Calls `assert_json_diff::assert_json_matches_no_panic` with a configuration made by
/// `Config::new(CompareMode::Strict)`. Trusted: it reports no difference exactly when
/// the two values are the same document. Nothing is claimed of the message.
#[verifier::external_body]
pub(crate) fn json_strict_diff(lhs: &serde_json::Value, rhs: &serde_json::Value) -> (outcome: Result<
    (),
    String,
>)
    ensures
        outcome.is_ok() == (*lhs == *rhs),
{
    assert_json_diff::assert_json_matches_no_panic(
        lhs,
        rhs,
        assert_json_diff::Config::new(assert_json_diff::CompareMode::Strict),
    )
}

/// Calls `Clone::clone` of `serde_json::Value`. Trusted: the copy is the same document.
#[verifier::external_body]
pub(crate) fn clone_document(document: &serde_json::Value) -> (copy: serde_json::Value)
    ensures
        copy == *document,
{
    document.clone()
}

/// The body is JSON, and the document it holds is `document`.
pub open spec fn body_is_document(body: Seq<char>, document: serde_json::Value) -> bool {
    json_parse(body) == Some(document)
}

/// The matcher asks for a document, and the body is JSON that holds that document.
pub open spec fn json_satisfied(body: Seq<char>, matcher: MatcherView) -> bool {
    match matcher.json_spec {
        Some(document) => body_is_document(body, document),
        None => false,
    }
}

/// Whether what was read from a body is the document `expected`. A body that could not
/// be read matches nothing.
pub fn document_matches(
    parsed: Result<serde_json::Value, serde_json::Error>,
    expected: &serde_json::Value,
) -> (matches: bool)
    ensures
        matches == match parsed {
            Ok(document) => document == *expected,
            Err(_) => false,
        },
{
    match parsed {
        Ok(document) => json_strict_diff(&document, expected).is_ok(),
        Err(_) => false,
    }
}

/// Whether the body satisfies the matcher's JSON condition: the matcher has one, the
/// body parses as JSON, and the parsed document is the configured one, with no key or
/// element more or less and none in another place. Never an error.
pub fn match_json(body_as_string: &String, matcher: &Matcher) -> (outcome: Result<bool, MatchError>)
    ensures
        outcome == Ok::<bool, MatchError>(json_satisfied(body_as_string@, matcher@)),
{
    match &matcher.match_json_body {
        None => Ok(false),
        Some(expected) => {
            let parsed = parse_json(body_as_string.as_str());
            Ok(document_matches(parsed, expected))
        },
    }
}

} // verus!
