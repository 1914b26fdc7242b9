//! The calls this library makes into `url` (through `reqwest`), `serde_json`,
//! `sha2`, `hex` and std, each behind a small item whose contract states what
//! the called code does.

use vstd::prelude::*;
use sha2::Digest;

use crate::client::{parsed_view, UrlParts};
use reqwest::Error as ReqwestError;
use serde_json::Error as JsonError;
use reqwest::Client as HttpClient;

verus! {

/// `reqwest::Error`, carried through as the payload of a transport failure.
#[verifier::external_type_specification]
#[verifier::external_body]
pub struct ExReqwestError(ReqwestError);

/// `serde_json::Error`, carried through as the payload of a decoding failure.
#[verifier::external_type_specification]
#[verifier::external_body]
pub struct ExSerdeJsonError(JsonError);

/// `reqwest::Client`, the HTTP client the transport sends with.
#[verifier::external_type_specification]
#[verifier::external_body]
pub struct ExHttpClient(HttpClient);

/// The outcome of `url::Url::parse` (`reqwest::Url` is `url::Url`) on the
/// given text: the URL's scheme, its host text, and the octets of its host when
/// the host is an IPv6 address; or the text of the parse error.
pub uninterp spec fn spec_url_parse(input: Seq<char>) -> Result<(Seq<char>, Option<Seq<char>>, Option<Seq<u8>>), Seq<char>>;

/// The SHA-256 digest of the bytes, as computed by `sha2::Sha256::digest`.
pub uninterp spec fn spec_sha256(data: Seq<u8>) -> Seq<u8>;

/// The text that `String::from_utf8_lossy` makes of the bytes.
pub uninterp spec fn spec_utf8_lossy(bytes: Seq<u8>) -> Seq<char>;

/// The total request timeout, in whole seconds, that a `reqwest::Client` applies
/// to each request (`ClientBuilder::timeout`), or `None` when it has none.
pub uninterp spec fn spec_request_timeout(client: HttpClient) -> Option<u64>;

/// The lower-case hex digit of `d` (`0 <= d < 16`).
pub open spec fn hex_digit(d: int) -> char {
    seq!['0', '1', '2', '3', '4', '5', '6', '7', '8', '9', 'a', 'b', 'c', 'd', 'e', 'f'][d]
}

/// Lower-case hex text of the bytes, two digits per byte, high nibble first.
pub open spec fn spec_hex_lower(bytes: Seq<u8>) -> Seq<char>
    decreases bytes.len(),
{
    if bytes.len() == 0 {
        seq![]
    } else {
        spec_hex_lower(bytes.drop_last()) + seq![
            hex_digit(bytes.last() as int / 16),
            hex_digit(bytes.last() as int % 16),
        ]
    }
}

/// How a JSON string literal writes one character.
pub open spec fn json_escape_char(c: char) -> Seq<char> {
    if c == '"' {
        seq!['\\', '"']
    } else if c == '\\' {
        seq!['\\', '\\']
    } else if c == '\u{8}' {
        seq!['\\', 'b']
    } else if c == '\t' {
        seq!['\\', 't']
    } else if c == '\n' {
        seq!['\\', 'n']
    } else if c == '\u{c}' {
        seq!['\\', 'f']
    } else if c == '\r' {
        seq!['\\', 'r']
    } else if (c as u32) < 0x20 {
        seq!['\\', 'u', '0', '0', hex_digit(c as int / 16), hex_digit(c as int % 16)]
    } else {
        seq![c]
    }
}

/// The escaped contents of a JSON string literal.
pub open spec fn json_escaped(s: Seq<char>) -> Seq<char>
    decreases s.len(),
{
    if s.len() == 0 {
        seq![]
    } else {
        json_escaped(s.drop_last()) + json_escape_char(s.last())
    }
}

/// The compact JSON string literal of `s`, quotes included.
pub open spec fn spec_json_string(s: Seq<char>) -> Seq<char> {
    seq!['"'] + json_escaped(s) + seq!['"']
}

/// Builds a `reqwest::Client` with `reqwest::Client::builder()`, the given request
/// timeout (`ClientBuilder::timeout` of `Duration::from_secs`), and
/// `ClientBuilder::build`. Whether the build succeeds depends on the machine (TLS
/// set-up), so that is not claimed; the contract claims only that a client that was
/// built applies the requested timeout (`build` keeps the builder's timeout as the
/// client's request timeout).
#[verifier::external_body]
pub(crate) fn build_http_client(timeout_secs: u64) -> (res: Result<reqwest::Client, reqwest::Error>)
    ensures
        res matches Ok(c) ==> spec_request_timeout(c) == Some(timeout_secs),
{
    reqwest::Client::builder().timeout(std::time::Duration::from_secs(timeout_secs)).build()
}

/// Calls `url::Url::parse` (`reqwest::Url` is `url::Url`) and reads the parsed URL's
/// `scheme()`, `host_str()`, and, through `host()`, the octets of an IPv6 host
/// (`Ipv6Addr::octets`); a parse error is returned as its display text. The contract
/// claims that the outcome is the named function of the input, and that an IPv6
/// address has sixteen octets.
#[verifier::external_body]
pub(crate) fn parse_url(input: &str) -> (res: Result<UrlParts, String>)
    ensures
        parsed_view(res) == spec_url_parse(input@),
        res matches Ok(u) ==> (u.ipv6 matches Some(o) ==> o@.len() == 16),
{
    match url::Url::parse(input) {
        Ok(parsed) => Ok(UrlParts {
            scheme: parsed.scheme().to_string(),
            host: match parsed.host_str() { Some(host) => Some(host.to_string()), None => None },
            ipv6: match parsed.host() {
                Some(url::Host::Ipv6(address)) => Some(address.octets().to_vec()),
                Some(url::Host::Ipv4(_)) => None,
                Some(url::Host::Domain(_)) => None,
                None => None,
            },
        }),
        Err(e) => Err(e.to_string()),
    }
}

/// Calls `sha2::Sha256::digest`. The contract claims that the digest is the named
/// function of the data and that it is 32 bytes long.
#[verifier::external_body]
pub(crate) fn sha256(data: &[u8]) -> (res: Vec<u8>)
    ensures
        res@ == spec_sha256(data@),
        res@.len() == 32,
{
    sha2::Sha256::digest(data).to_vec()
}

/// Calls `hex::encode`, which writes each byte as two lower-case hex digits.
#[verifier::external_body]
pub(crate) fn hex_encode(data: &[u8]) -> (res: String)
    ensures
        res@ == spec_hex_lower(data@),
{
    hex::encode(data)
}

/// Calls `String::from_utf8_lossy`. The contract claims that the text is the named
/// function of the bytes, and, as std documents, that valid UTF-8 is decoded as is.
#[verifier::external_body]
pub(crate) fn utf8_lossy(bytes: &[u8]) -> (res: String)
    ensures
        res@ == spec_utf8_lossy(bytes@),
        vstd::utf8::valid_utf8(bytes@) ==> res@ == vstd::utf8::decode_utf8(bytes@),
{
    String::from_utf8_lossy(bytes).into_owned()
}

/// Calls `serde_json::to_string` on a string slice: the compact JSON string literal,
/// quotes included, with `"`, `\`, and the control characters escaped. Writing a
/// string slice into an in-memory buffer cannot fail in `serde_json`, so the error
/// arm is never taken.
#[verifier::external_body]
pub(crate) fn json_string(s: &str) -> (res: String)
    ensures
        res@ == spec_json_string(s@),
{
    match serde_json::to_string(s) {
        Ok(text) => text,
        Err(_) => String::new(),
    }
}

} // verus!
