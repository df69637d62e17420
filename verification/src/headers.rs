//! Header sets of inbound requests, and the control headers that steer the
//! duplicator itself and are never forwarded to a target.

use axum::http::header::{HeaderMap, HeaderValue, ToStrError};
use vstd::prelude::*;

verus! {

/// `http::HeaderMap`, the multimap of header names to values that carries
/// the headers of a request. Opaque here; its content is [`header_fields`].
#[verifier::external_type_specification]
#[verifier::external_body]
#[verifier::reject_recursive_types(T)]
pub struct ExHeaderMap<T>(HeaderMap<T>);

/// `http::HeaderValue`, one header value. Opaque here; its content is
/// [`header_value_bytes`].
#[verifier::external_type_specification]
#[verifier::external_body]
pub struct ExHeaderValue(HeaderValue);

/// `http::header::ToStrError`, the error of `HeaderValue::to_str`. It
/// carries no information.
#[verifier::external_type_specification]
#[verifier::external_body]
pub struct ExToStrError(ToStrError);

/// What a header map holds: for every header name present (in its
/// normalised, lower-case spelling) the bytes of its values, in the order in
/// which they were added.
pub uninterp spec fn header_fields(headers: HeaderMap<HeaderValue>) -> Map<Seq<char>, Seq<Seq<u8>>>;

/// The bytes of one header value.
pub uninterp spec fn header_value_bytes(value: HeaderValue) -> Seq<u8>;

/// Characters of the header names this library looks up: lower-case
/// letters, digits and the hyphen.
pub open spec fn is_name_char(c: char) -> bool {
    ('a' <= c && c <= 'z') || ('0' <= c && c <= '9') || c == '-'
}

/// A header name that is already in normalised spelling, so that looking
/// it up addresses exactly the field of that name.
pub open spec fn is_plain_name(name: Seq<char>) -> bool {
    &&& 1 <= name.len() <= 64
    &&& forall|i: int| 0 <= i < name.len() ==> is_name_char(#[trigger] name[i])
}

/// A byte that may appear in a header value read as text: printable ASCII
/// or a horizontal tab.
pub open spec fn is_visible_byte(b: u8) -> bool {
    (32 <= b && b < 127) || b == 9
}

/// Whether every byte of a header value is visible.
pub open spec fn is_visible_text(bytes: Seq<u8>) -> bool {
    forall|i: int| 0 <= i < bytes.len() ==> is_visible_byte(#[trigger] bytes[i])
}

/// The characters of a header value whose bytes are all visible.
pub open spec fn text_of(bytes: Seq<u8>) -> Seq<char> {
    Seq::new(bytes.len(), |i: int| bytes[i] as char)
}

/// Name of the header that lists the targets of a duplication.
pub open spec fn targets_header() -> Seq<char> {
    "x-duplicate-targets"@
}

/// Name of the routing header that is not forwarded.
pub open spec fn host_header() -> Seq<char> {
    "host"@
}

/// Fields that remain once the control headers are taken out.
pub open spec fn forwarded_fields(fields: Map<Seq<char>, Seq<Seq<u8>>>) -> Map<
    Seq<char>,
    Seq<Seq<u8>>,
> {
    fields.remove(targets_header()).remove(host_header())
}

/// The text of the target-list header: the first value of that header, if
/// the header is present and that value is visible text.
pub open spec fn targets_text(fields: Map<Seq<char>, Seq<Seq<u8>>>) -> Option<Seq<char>> {
    if fields.contains_key(targets_header()) && is_visible_text(fields[targets_header()][0]) {
        Some(text_of(fields[targets_header()][0]))
    } else {
        None
    }
}

/// `HeaderMap::get` with a `&str` key. For a name in normalised spelling
/// the map is searched for exactly that name; the result is the first value
/// stored under it, and `None` when the name is absent. A name that is
/// present has at least one value.
#[verifier::external_body]
fn header_get<'a>(headers: &'a HeaderMap<HeaderValue>, name: &str) -> (r: Option<&'a HeaderValue>)
    requires
        is_plain_name(name@),
    ensures
        match r {
            Some(value) => {
                &&& header_fields(*headers).contains_key(name@)
                &&& header_fields(*headers)[name@].len() > 0
                &&& header_value_bytes(*value) == header_fields(*headers)[name@][0]
            },
            None => !header_fields(*headers).contains_key(name@),
        },
{
    headers.get(name)
}

/// `HeaderMap::remove` with a `&str` key. For a name in normalised
/// spelling every value stored under that name leaves the map, and the
/// values of all other names stay as they were.
#[verifier::external_body]
fn header_remove(headers: &mut HeaderMap<HeaderValue>, name: &str)
    requires
        is_plain_name(name@),
    ensures
        header_fields(*final(headers)) == header_fields(*old(headers)).remove(name@),
{
    headers.remove(name);
}

/// `HeaderValue::to_str`: succeeds exactly when every byte of the value is
/// printable ASCII or a tab, and then yields those bytes as characters.
pub assume_specification[ HeaderValue::to_str ](value: &HeaderValue) -> (r: Result<
    &str,
    ToStrError,
>)
    ensures
        match r {
            Ok(text) => {
                &&& is_visible_text(header_value_bytes(*value))
                &&& text@ == text_of(header_value_bytes(*value))
            },
            Err(_) => !is_visible_text(header_value_bytes(*value)),
        },
;

proof fn lemma_control_names_are_plain()
    ensures
        is_plain_name(targets_header()),
        is_plain_name(host_header()),
{
    reveal_strlit("x-duplicate-targets");
    reveal_strlit("host");
}

/// Reads the target-list header as text.
///
/// Returns the first value of the header when the header is present and
/// that value consists of visible characters only, and `None` otherwise.
pub fn read_targets_header(headers: &HeaderMap<HeaderValue>) -> (r: Option<String>)
    ensures
        match r {
            Some(text) => targets_text(header_fields(*headers)) == Some(text@),
            None => targets_text(header_fields(*headers)) is None,
        },
{
    proof {
        lemma_control_names_are_plain();
    }
    match header_get(headers, "x-duplicate-targets") {
        None => None,
        Some(value) => match value.to_str() {
            Ok(text) => Some(text.to_owned()),
            Err(_) => None,
        },
    }
}

/// Removes the headers that control duplication or routing, leaving the
/// set that is forwarded to every target.
pub fn strip_control_headers(headers: HeaderMap<HeaderValue>) -> (r: HeaderMap<HeaderValue>)
    ensures
        header_fields(r) == forwarded_fields(header_fields(headers)),
{
    proof {
        lemma_control_names_are_plain();
    }
    let mut kept = headers;
    header_remove(&mut kept, "x-duplicate-targets");
    header_remove(&mut kept, "host");
    kept
}

} // verus!
