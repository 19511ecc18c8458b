//! Calls into outside crates whose results the library takes as given: the
//! clock, random identifiers, hashing, hexadecimal, URL parsing and I/O
//! error texts.
use vstd::prelude::*;

verus! {

/// `chrono::Utc::now().timestamp_millis()`: the current time in milliseconds
/// since the Unix epoch. It depends on the clock, so nothing is promised of
/// the value.
#[verifier::external_body]
pub(crate) fn now_millis() -> i64 {
    chrono::Utc::now().timestamp_millis()
}

/// A lower-case hexadecimal digit.
pub open spec fn is_lower_hex(c: char) -> bool {
    ('0' <= c && c <= '9') || ('a' <= c && c <= 'f')
}

/// A UUID in the hyphenated lower-case form: 36 characters, dashes at
/// positions 8, 13, 18 and 23, lower-case hexadecimal digits elsewhere.
pub open spec fn is_uuid_text(s: Seq<char>) -> bool {
    &&& s.len() == 36
    &&& forall|i: int|
        0 <= i < 36 ==> if i == 8 || i == 13 || i == 18 || i == 23 {
            #[trigger] s[i] == '-'
        } else {
            is_lower_hex(s[i])
        }
}

/// `uuid::Uuid::new_v4().to_string()`: a fresh random identifier. Its
/// digits are random; `Display` writes every UUID in the hyphenated
/// lower-case form, and that form is what is promised.
#[verifier::external_body]
pub(crate) fn new_uuid_string() -> (r: String)
    ensures
        is_uuid_text(r@),
{
    uuid::Uuid::new_v4().to_string()
}

/// The parts of a parsed URL that the importers read.
pub struct UrlParts {
    /// The scheme, such as `https`.
    pub scheme: String,
    /// The host as text, when the URL has one.
    pub host: Option<String>,
    /// The path segments, when the URL has a hierarchical path.
    pub segments: Option<Vec<String>>,
    /// The query as decoded key/value pairs, in order.
    pub query: Vec<(String, String)>,
}

/// A parsed URL as plain values.
pub ghost struct UrlModel {
    pub scheme: Seq<char>,
    pub host: Option<Seq<char>>,
    pub segments: Option<Seq<Seq<char>>>,
    pub query: Seq<(Seq<char>, Seq<char>)>,
}

impl View for UrlParts {
    type V = UrlModel;

    open spec fn view(&self) -> UrlModel {
        UrlModel {
            scheme: self.scheme@,
            host: match self.host {
                Some(h) => Some(h@),
                None => None,
            },
            segments: match self.segments {
                Some(v) => Some(v@.map_values(|x: String| x@)),
                None => None,
            },
            query: self.query@.map_values(|p: (String, String)| (p.0@, p.1@)),
        }
    }
}

/// What `url::Url::parse` makes of a text: `None` when it is not a URL.
pub uninterp spec fn url_parse(input: Seq<char>) -> Option<UrlModel>;

/// The model of a parse result.
pub open spec fn url_view(r: Option<UrlParts>) -> Option<UrlModel> {
    match r {
        Some(p) => Some(p@),
        None => None,
    }
}

/// `url::Url::parse` (re-exported by reqwest as `reqwest::Url`), read through
/// `scheme`, `host_str`, `path_segments` and `query_pairs`. The result is
/// claimed to depend on the input text alone; the parsing rules of the
/// WHATWG URL standard that the crate implements are not restated.
#[verifier::external_body]
pub(crate) fn parse_url(input: &str) -> (r: Option<UrlParts>)
    ensures
        url_view(r) == url_parse(input@),
{
    url::Url::parse(input).ok().map(
        |u| UrlParts {
            scheme: u.scheme().to_string(),
            host: u.host_str().map(|h| h.to_string()),
            segments: u.path_segments().map(|s| s.map(|x| x.to_string()).collect()),
            query: u.query_pairs().map(|(k, v)| (k.into_owned(), v.into_owned())).collect(),
        },
    )
}

/// `uuid::Uuid::new_v4().as_bytes()`: the 16 bytes of a fresh random
/// identifier. They are random; only their number is promised.
#[verifier::external_body]
pub(crate) fn new_uuid_bytes() -> (r: Vec<u8>)
    ensures
        r@.len() == 16,
{
    uuid::Uuid::new_v4().as_bytes().to_vec()
}

/// The SHA-256 digest of a byte string.
pub uninterp spec fn sha256_digest(data: Seq<u8>) -> Seq<u8>;

/// `sha2::Sha256::new`, `update` and `finalize`: the SHA-256 digest of
/// `data`, 32 bytes long. The digest is claimed to depend on the data
/// alone; the algorithm is not restated.
#[verifier::external_body]
pub(crate) fn sha256(data: &[u8]) -> (r: Vec<u8>)
    ensures
        r@ == sha256_digest(data@),
        r@.len() == 32,
{
    let mut hasher = <sha2::Sha256 as sha2::Digest>::new();
    sha2::Digest::update(&mut hasher, data);
    sha2::Digest::finalize(hasher).to_vec()
}

/// The lower-case hexadecimal digit of `n < 16`.
pub open spec fn hex_digit(n: nat) -> char {
    if n < 10 {
        (('0' as u32) + n) as char
    } else {
        (('a' as u32) + (n - 10)) as char
    }
}

/// Bytes in lower-case hexadecimal, two digits per byte, high half first.
pub open spec fn hex_of(bytes: Seq<u8>) -> Seq<char>
    decreases bytes.len(),
{
    if bytes.len() == 0 {
        Seq::empty()
    } else {
        hex_of(bytes.drop_last()) + seq![hex_digit((bytes.last() / 16) as nat), hex_digit((bytes.last() % 16) as nat)]
    }
}

/// `hex::encode`: the bytes in lower-case hexadecimal, two digits per
/// byte, as its documentation describes.
#[verifier::external_body]
pub(crate) fn hex_encode(bytes: &[u8]) -> (r: String)
    ensures
        r@ == hex_of(bytes@),
{
    hex::encode(bytes)
}

#[verifier::external_type_specification]
#[verifier::external_body]
pub struct ExIoError(std::io::Error);

/// `std::io::Error`'s `Display`: the error as text. What the text says is
/// not promised.
#[verifier::external_body]
pub(crate) fn io_error_text(err: &std::io::Error) -> String {
    err.to_string()
}

} // verus!
