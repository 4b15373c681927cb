//! Matching request headers against the names and values a matcher asks for.

use vstd::prelude::*;
use actix_web::http::header::HeaderMap;
use actix_web::http::header::HeaderValue;
use actix_web::http::header::ToStrError;
use crate::config::lemma_pairs_to_map;
use crate::config::names_distinct;
use crate::config::names_hold;
use crate::config::pairs_to_map;
use crate::config::Matcher;
use crate::config::MatcherView;
use crate::matchers::MatchError;

verus! {

/// The headers of a request, as `actix_web` hands them over.
#[verifier::external_type_specification]
#[verifier::external_body]
pub struct ExHeaderMap(HeaderMap);

/// One header value: a string of bytes that need not be text.
#[verifier::external_type_specification]
#[verifier::external_body]
pub struct ExHeaderValue(HeaderValue);

/// The error of `HeaderValue::to_str`.
#[verifier::external_type_specification]
#[verifier::external_body]
pub struct ExToStrError(ToStrError);

/// What a header map holds: under each header name, in the lower case in which the map
/// keeps its names, the bytes of the value that the map hands out first for that name.
pub uninterp spec fn header_entries(headers: HeaderMap) -> Map<Seq<char>, Seq<u8>>;

/// The bytes that a header value holds.
pub uninterp spec fn header_value_bytes(value: HeaderValue) -> Seq<u8>;

/// `c` with an ASCII capital turned into its small letter.
pub open spec fn ascii_lowercase_char(c: char) -> char {
    if 'A' <= c && c <= 'Z' {
        ((c as u8 + 32) as u8) as char
    } else {
        c
    }
}

/// `name` with its ASCII capitals turned into small letters.
pub open spec fn ascii_lowercase(name: Seq<char>) -> Seq<char> {
    name.map_values(|c: char| ascii_lowercase_char(c))
}

/// A byte that may stand in a header value read as text: printable ASCII or a tab.
pub open spec fn is_visible_ascii(byte: u8) -> bool {
    (32 <= byte && byte < 127) || byte == 9
}

/// Every byte may stand in a header value read as text.
pub open spec fn bytes_are_text(bytes: Seq<u8>) -> bool {
    forall|i: int| 0 <= i < bytes.len() ==> is_visible_ascii(#[trigger] bytes[i])
}

/// The bytes read as characters, one for one.
pub open spec fn bytes_as_text(bytes: Seq<u8>) -> Seq<char> {
    bytes.map_values(|byte: u8| byte as char)
}

/// Calls `HeaderMap::get` with a `&String` as the key. Trusted: the map looks the name
/// up without regard to ASCII case, which is to say under its lower-case form, and hands
/// back the first value stored there; a name that is no legal header name is in no map.
#[verifier::external_body]
fn headers_get<'a>(headers: &'a HeaderMap, name: &String) -> (found: Option<&'a HeaderValue>)
    ensures
        match found {
            Some(value) => header_entries(*headers).contains_key(ascii_lowercase(name@))
                && header_entries(*headers)[ascii_lowercase(name@)] == header_value_bytes(*value),
            None => !header_entries(*headers).contains_key(ascii_lowercase(name@)),
        },
{
    headers.get(name)
}

/// Calls `HeaderValue::to_str`. Trusted: it succeeds exactly when every byte of the value
/// is printable ASCII or a tab, and the text then holds those bytes as characters.
#[verifier::external_body]
fn header_value_to_str<'a>(value: &'a HeaderValue) -> (text: Result<&'a str, ToStrError>)
    ensures
        match text {
            Ok(text) => bytes_are_text(header_value_bytes(*value)) && text@ == bytes_as_text(
                header_value_bytes(*value),
            ),
            Err(_) => !bytes_are_text(header_value_bytes(*value)),
        },
{
    value.to_str()
}

/// The request carries a header `name`, whatever the case of its letters, and the value
/// of that header is not text.
pub open spec fn header_undecodable(entries: Map<Seq<char>, Seq<u8>>, name: Seq<char>) -> bool {
    let key = ascii_lowercase(name);
    entries.contains_key(key) && !bytes_are_text(entries[key])
}

/// The request carries a header `name`, whatever the case of its letters, and the value
/// of that header is the text `value`, letter for letter.
pub open spec fn header_is(
    entries: Map<Seq<char>, Seq<u8>>,
    name: Seq<char>,
    value: Seq<char>,
) -> bool {
    let key = ascii_lowercase(name);
    entries.contains_key(key) && bytes_are_text(entries[key]) && bytes_as_text(entries[key])
        == value
}

/// One of the headers asked for is present with a value that is not text.
pub open spec fn headers_undecodable(
    entries: Map<Seq<char>, Seq<u8>>,
    spec: Map<Seq<char>, Seq<char>>,
) -> bool {
    exists|name: Seq<char>| spec.contains_key(name) && #[trigger] header_undecodable(entries, name)
}

/// Every header asked for is present with the value asked for.
pub open spec fn headers_present(
    entries: Map<Seq<char>, Seq<u8>>,
    spec: Map<Seq<char>, Seq<char>>,
) -> bool {
    forall|name: Seq<char>| #[trigger]
        spec.contains_key(name) ==> header_is(entries, name, spec[name])
}

/// What holding a request's headers against a matcher gives: `false` where the matcher
/// asks for no headers; an error where a header it asks for cannot be read as text;
/// else whether every header it asks for is present with the value it asks for.
pub open spec fn headers_outcome(entries: Map<Seq<char>, Seq<u8>>, matcher: MatcherView) -> Result<
    bool,
    MatchError,
> {
    match matcher.header_spec {
        None => Ok(false),
        Some(spec) => if headers_undecodable(entries, spec) {
            Err(MatchError::UndecodableHeader)
        } else {
            Ok(headers_present(entries, spec))
        },
    }
}

/// The matcher's header condition is met.
pub open spec fn headers_satisfied(entries: Map<Seq<char>, Seq<u8>>, matcher: MatcherView) -> bool {
    headers_outcome(entries, matcher) == Ok::<bool, MatchError>(true)
}

/// The case of the letters in a header name makes no difference: two names that are the
/// same but for the case of ASCII letters find the same header.
pub proof fn lemma_header_names_ignore_case(
    entries: Map<Seq<char>, Seq<u8>>,
    first: Seq<char>,
    second: Seq<char>,
    value: Seq<char>,
)
    requires
        ascii_lowercase(first) == ascii_lowercase(second),
    ensures
        header_is(entries, first, value) == header_is(entries, second, value),
        header_undecodable(entries, first) == header_undecodable(entries, second),
{
}

/// A matcher that asks for no headers is not satisfied, and cannot fail, whatever the
/// request carries.
pub proof fn lemma_no_header_spec(entries: Map<Seq<char>, Seq<u8>>, matcher: MatcherView)
    requires
        matcher.header_spec.is_none(),
    ensures
        headers_outcome(entries, matcher) == Ok::<bool, MatchError>(false),
{
}

/// Holds the headers of a request against the headers a matcher asks for.
pub fn match_headers(headers: &HeaderMap, matcher: &Matcher) -> (outcome: Result<bool, MatchError>)
    ensures
        outcome == headers_outcome(header_entries(*headers), matcher@),
{
    let spec = match &matcher.match_headers {
        None => {
            return Ok(false);
        },
        Some(spec) => spec,
    };
    let wanted = spec.entries();
    let ghost entries = header_entries(*headers);
    let ghost pairs = spec.pairs();
    proof {
        lemma_pairs_to_map(pairs);
    }
    let mut all_present = true;
    let mut i: usize = 0;
    while i < wanted.len()
        invariant
            i <= wanted.len(),
            wanted.deep_view() == pairs,
            names_distinct(pairs),
            spec@ == pairs_to_map(pairs),
            matcher@.header_spec == Some(spec@),
            entries == header_entries(*headers),
            forall|k: int| 0 <= k < i ==> !header_undecodable(entries, #[trigger] pairs[k].0),
            all_present == (forall|k: int|
                0 <= k < i ==> header_is(entries, (#[trigger] pairs[k]).0, pairs[k].1)),
        ensures
            i == wanted.len(),
        decreases wanted.len() - i,
    {
        let name = &wanted[i].0;
        let value = &wanted[i].1;
        assert(pairs[i as int] == wanted[i as int].deep_view());
        let mut present = false;
        match headers_get(headers, name) {
            None => {},
            Some(found) => {
                match header_value_to_str(found) {
                    Err(_) => {
                        proof {
                            lemma_pairs_to_map(pairs);
                            assert(header_undecodable(entries, pairs[i as int].0));
                            assert(spec@.contains_key(pairs[i as int].0));
                        }
                        return Err(MatchError::UndecodableHeader);
                    },
                    Ok(text) => {
                        let text = text.to_owned();
                        present = text == *value;
                    },
                }
            },
        }
        assert(present == header_is(entries, pairs[i as int].0, pairs[i as int].1));
        if !present {
            all_present = false;
        }
        i += 1;
    }
    proof {
        assert(!headers_undecodable(entries, spec@)) by {
            if headers_undecodable(entries, spec@) {
                let name = choose|name: Seq<char>|
                    spec@.contains_key(name) && #[trigger] header_undecodable(entries, name);
                assert(names_hold(pairs, name));
                let k = choose|k: int| 0 <= k < pairs.len() && #[trigger] pairs[k].0 == name;
                assert(!header_undecodable(entries, pairs[k].0));
            }
        }
        if all_present {
            assert forall|name: Seq<char>| #[trigger] spec@.contains_key(name) implies header_is(
                entries,
                name,
                spec@[name],
            ) by {
                assert(names_hold(pairs, name));
                let k = choose|k: int| 0 <= k < pairs.len() && #[trigger] pairs[k].0 == name;
                assert(header_is(entries, pairs[k].0, pairs[k].1));
            }
        } else {
            let k = choose|k: int|
                0 <= k < pairs.len() && !header_is(entries, (#[trigger] pairs[k]).0, pairs[k].1);
            assert(spec@.contains_key(pairs[k].0));
        }
    }
    Ok(all_present)
}

} // verus!
