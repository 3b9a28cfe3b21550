//! What the `http` and `url` crates decide and hold for this library.
//! Nothing in this file is proved: each contract says what the crate's own
//! code does, and the rest of the library is proved from these contracts.

use std::str::FromStr;
use vstd::multiset::Multiset;
use vstd::prelude::*;
use vstd::utf8::encode_utf8;
use crate::views::given;

verus! {

/// The error with which `http` refuses a text as a path.
#[verifier::external_type_specification]
#[verifier::external_body]
pub struct ExInvalidUri(http::uri::InvalidUri);

/// The error with which `http` refuses a text as a header name.
#[verifier::external_type_specification]
#[verifier::external_body]
pub struct ExInvalidHeaderName(http::header::InvalidHeaderName);

/// The error with which `http` refuses a text as a header value.
#[verifier::external_type_specification]
#[verifier::external_body]
pub struct ExInvalidHeaderValue(http::header::InvalidHeaderValue);

/// The map in which `http` holds the headers of a request.
#[verifier::external_type_specification]
#[verifier::external_body]
#[verifier::reject_recursive_types(T)]
pub struct ExHeaderMap<T>(http::HeaderMap<T>);

/// A header value as `http` holds it.
#[verifier::external_type_specification]
#[verifier::external_body]
pub struct ExHeaderValue(http::HeaderValue);

/// The headers that the map holds, each the text of its name and the text
/// of its value, and each as often as it was appended.
pub uninterp spec fn header_map_pairs(map: http::HeaderMap<http::HeaderValue>) -> Multiset<
    (Seq<char>, Seq<char>),
>;

/// A map that holds fewer headers than this takes one more. `http` refuses
/// a header only where the table of the map, at 32768 places, would have
/// to grow once more, and a table of that size has to grow only for a map
/// that holds more than 6553 names.
pub const HEADER_MAP_ROOM: usize = 4096;

/// The path and query that `http` reads out of the text, as it writes
/// them; `None` where it refuses the text.
pub uninterp spec fn path_and_query_text(text: Seq<char>) -> Option<Seq<char>>;

/// The header name that `http` reads out of the text, in the lower case in
/// which it keeps names; `None` where it refuses the text.
pub uninterp spec fn header_name_text(text: Seq<char>) -> Option<Seq<char>>;

/// The URL that `url` reads out of the text, as `url` writes it; `None`
/// where it refuses the text.
pub uninterp spec fn url_text(text: Seq<char>) -> Option<Seq<char>>;

/// The path of the URL that `url` reads out of the text; `None` where it
/// refuses the text.
pub uninterp spec fn url_path_text(text: Seq<char>) -> Option<Seq<char>>;

/// The URL that `url` reads out of `base`, with its path replaced by
/// `path`, as `url` writes it; `None` where it refuses `base`.
pub uninterp spec fn url_with_path_text(base: Seq<char>, path: Seq<char>) -> Option<Seq<char>>;

/// The status code and its reason phrase, as `http` writes a status;
/// `None` where it takes the number for no status code.
pub uninterp spec fn status_line_text(code: u16) -> Option<Seq<char>>;

/// Whether `http` takes the character in a header value given as text:
/// anything but the control characters, and of those the tab.
pub open spec fn header_value_char(c: char) -> bool {
    (c as u32 >= 32 && c as u32 != 127) || c as u32 == 9
}

/// Whether `http` takes the text as a header value.
pub open spec fn header_value_ok(text: Seq<char>) -> bool {
    forall|i: int| 0 <= i < text.len() ==> header_value_char(#[trigger] text[i])
}

/// Whether a URL of `text_bytes` bytes can take a new path that is given
/// in `path_bytes` bytes: `url` counts the bytes of a URL in 32 bits, and
/// writes each byte of the path it is given in at most three bytes, behind
/// at most one slash of its own.
pub open spec fn lengths_fit(text_bytes: nat, path_bytes: nat) -> bool {
    text_bytes + 3 * path_bytes + 1 <= u32::MAX
}

/// Whether the URL with the given text can take the given path.
pub open spec fn url_fits(text: Seq<char>, path: Seq<char>) -> bool {
    lengths_fit(encode_utf8(text).len(), encode_utf8(path).len())
}

/// `PathAndQuery::from_str` of `http`, and the text that the value it
/// returns is written as. The contract claims that both depend on the text
/// alone.
#[verifier::external_body]
pub(crate) fn parse_path_and_query(text: &str) -> (parsed: Result<String, http::uri::InvalidUri>)
    ensures
        match parsed {
            Ok(path) => path_and_query_text(text@) == Some(path@),
            Err(_) => path_and_query_text(text@) is None,
        },
{
    match http::uri::PathAndQuery::from_str(text) {
        Ok(path) => Ok(path.to_string()),
        Err(error) => Err(error),
    }
}

/// `HeaderName::from_str` of `http`, and the text of the name it returns.
/// The contract claims that both depend on the text alone.
#[verifier::external_body]
pub(crate) fn parse_header_name(text: &str) -> (parsed: Result<
    String,
    http::header::InvalidHeaderName,
>)
    ensures
        match parsed {
            Ok(name) => header_name_text(text@) == Some(name@),
            Err(_) => header_name_text(text@) is None,
        },
{
    match http::header::HeaderName::from_str(text) {
        Ok(name) => Ok(name.as_str().to_string()),
        Err(error) => Err(error),
    }
}

/// `HeaderValue::from_str` of `http`. The contract claims that it takes the
/// text exactly if each of its bytes is 9, or is at least 32 and not 127;
/// which every byte of a character beyond ASCII is.
#[verifier::external_body]
pub(crate) fn check_header_value(text: &str) -> (checked: Result<
    (),
    http::header::InvalidHeaderValue,
>)
    ensures
        checked is Ok <==> header_value_ok(text@),
{
    match http::header::HeaderValue::from_str(text) {
        Ok(_) => Ok(()),
        Err(error) => Err(error),
    }
}

/// `HeaderMap::new` of `http`. The contract claims that the new map holds
/// no header.
#[verifier::external_body]
pub(crate) fn header_map_new() -> (map: http::HeaderMap<http::HeaderValue>)
    ensures
        header_map_pairs(map) == Multiset::<(Seq<char>, Seq<char>)>::empty(),
{
    http::HeaderMap::new()
}

/// `HeaderMap::try_append` of `http`, with the name and the value that
/// `HeaderName::from_str` and `HeaderValue::from_str` make of the two
/// texts. The contract claims that the map holds one header more where it
/// takes the header, beside all it held, also those of the same name; and
/// that it refuses a header only where it holds `HEADER_MAP_ROOM` headers
/// or more. Of a map that refused a header the contract says nothing.
#[verifier::external_body]
pub(crate) fn header_map_try_append(
    map: &mut http::HeaderMap<http::HeaderValue>,
    name: &str,
    value: &str,
) -> (appended: bool)
    requires
        header_name_text(name@) is Some,
        header_value_ok(value@),
    ensures
        appended ==> header_map_pairs(*final(map)) == header_map_pairs(*old(map)).insert(
            (header_name_text(name@)->0, value@),
        ),
        !appended ==> header_map_pairs(*old(map)).len() >= HEADER_MAP_ROOM,
{
    match (http::header::HeaderName::from_str(name), http::header::HeaderValue::from_str(value)) {
        (Ok(name), Ok(value)) => map.try_append(name, value).is_ok(),
        _ => false,
    }
}

/// `HeaderMap::clone` of `http`. The contract claims that the copy holds
/// the headers that the map holds.
#[verifier::external_body]
pub(crate) fn header_map_clone(map: &http::HeaderMap<http::HeaderValue>) -> (copy: http::HeaderMap<
    http::HeaderValue,
>)
    ensures
        header_map_pairs(copy) == header_map_pairs(*map),
{
    map.clone()
}

/// `Url::parse` of `url`, and of the URL it returns the text (`as_str`)
/// and the path (`path`). The contract claims that both depend on the text
/// alone, and that there is neither where `url` refuses the text.
#[verifier::external_body]
pub(crate) fn parse_url(text: &str) -> (parsed: Option<(String, String)>)
    ensures
        match parsed {
            Some((url, path)) => url_text(text@) == Some(url@) && url_path_text(text@) == Some(
                path@,
            ),
            None => url_text(text@) is None && url_path_text(text@) is None,
        },
{
    match reqwest::Url::parse(text) {
        Ok(url) => Some((url.as_str().to_string(), url.path().to_string())),
        Err(_) => None,
    }
}

/// `Url::parse` of `url` on `base`, then `Url::set_path` with `path`, and
/// the text of the URL that results. The contract claims that the text
/// depends on `base` and `path` alone, and that there is one exactly where
/// `url` takes `base` for a URL. Kept out are the paths with which the URL
/// would outgrow the 32 bits in which `url` counts its bytes.
#[verifier::external_body]
pub(crate) fn url_with_path(base: &str, path: &str) -> (url: Option<String>)
    requires
        url_text(base@) matches Some(text) ==> url_fits(text, path@),
    ensures
        given(url) == url_with_path_text(base@, path@),
        url is Some <==> url_text(base@) is Some,
{
    match reqwest::Url::parse(base) {
        Ok(mut url) => {
            url.set_path(path);
            Some(String::from(url))
        },
        Err(_) => None,
    }
}

/// `StatusCode::from_u16` of `http`, and the text that the status it
/// returns is written as. The contract claims that both depend on the
/// number alone.
#[verifier::external_body]
pub(crate) fn status_line(code: u16) -> (line: Option<String>)
    ensures
        given(line) == status_line_text(code),
{
    match http::StatusCode::from_u16(code) {
        Ok(status) => Some(status.to_string()),
        Err(_) => None,
    }
}

} // verus!
