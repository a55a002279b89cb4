//! The parts of a URI, and what may stand in a header.

use axum::http::{HeaderValue, Uri};
use vstd::prelude::*;
use vstd::string::*;

verus! {

/// The parts of a URI.
#[derive(Debug)]
pub struct UriParts {
    pub scheme: Option<String>,
    pub has_authority: bool,
    pub host: Option<String>,
    pub path: String,
    pub query: Option<String>,
}

/// The parts of a URI with their texts as characters.
pub struct Parts {
    pub scheme: Option<Seq<char>>,
    pub has_authority: bool,
    pub host: Option<Seq<char>>,
    pub path: Seq<char>,
    pub query: Option<Seq<char>>,
}

impl View for UriParts {
    type V = Parts;

    open spec fn view(&self) -> Parts {
        Parts {
            scheme: crate::text::opt_text(self.scheme),
            has_authority: self.has_authority,
            host: crate::text::opt_text(self.host),
            path: self.path@,
            query: crate::text::opt_text(self.query),
        }
    }
}

/// The parts of an optional URI.
pub open spec fn opt_parts(uri: Option<UriParts>) -> Option<Parts> {
    match uri {
        Some(parts) => Some(parts@),
        None => None,
    }
}

/// The parts of the URI that `s` is, if it is one.
pub uninterp spec fn uri_of(s: Seq<char>) -> Option<Parts>;

/// `Uri` of `http`, parsed from text: its scheme, whether it has an authority, the host in that,
/// its path and its query; nothing where the text is no URI.
#[verifier::external_body]
pub(crate) fn parse_uri(s: &str) -> (r: Option<UriParts>)
    ensures
        opt_parts(r) == uri_of(s@),
{
    let uri: Uri = s.parse().ok()?;
    Some(
        UriParts {
            scheme: uri.scheme_str().map(str::to_owned),
            has_authority: uri.authority().is_some(),
            host: uri.host().map(str::to_owned),
            path: uri.path().to_owned(),
            query: uri.query().map(str::to_owned),
        },
    )
}

/// Whether a byte may stand in the value of a header.
pub open spec fn header_byte(b: u8) -> bool {
    b >= 32 && b != 127 || b == 9
}

/// Whether `s` may be the value of a header.
pub open spec fn header_text(s: Seq<char>) -> bool {
    let bytes = vstd::utf8::encode_utf8(s);
    forall|i: int| 0 <= i < bytes.len() ==> header_byte(#[trigger] bytes[i])
}

/// `HeaderValue::from_str` of `http`: it takes text without control bytes other than a
/// tabulator.
#[verifier::external_body]
pub(crate) fn is_header_text(s: &str) -> (r: bool)
    ensures
        r == header_text(s@),
{
    HeaderValue::from_str(s).is_ok()
}

/// Whether an optional text is there and is `expected`.
pub(crate) fn is_text(value: &Option<String>, expected: &str) -> (r: bool)
    ensures
        r == (crate::text::opt_text(*value) == Some(expected@)),
{
    match value {
        Some(s) => *s.as_str() == *expected,
        None => false,
    }
}

} // verus!
