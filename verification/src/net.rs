//! The generic query pipeline: HTTP operations as plain values, form-data
//! encoding, URL assembly, and the classification of a raw response into a
//! body or an [`Error`].
//!
//! Performing the network round trip is the caller's business; everything
//! decided here is a pure function of its inputs.

use vstd::prelude::*;

use crate::error::{APIError, Error};
use crate::spec_api_url;
use crate::strutil::eq_str;
use vstd::utf8::encode_utf8;

verus! {

/// Holds a (key, value) tuple of data to send along an HTTP POST or PATCH
/// request.
#[derive(Debug, Clone)]
pub struct PostData(pub String, pub String);

/// Contains all the kinds of operations supported by the API.
/// An operation that carries data, such as POST, holds it in its variant.
#[derive(Debug)]
pub enum HTTPOp {
    GET,
    PUT(String),
    POST(Vec<PostData>),
    PATCH(Option<Vec<PostData>>),
    DELETE,
}

/// A fully described API call: the path below the base URL, and the
/// operation to perform on it.
#[derive(Debug)]
pub struct QueryRequest {
    pub endpoint: String,
    pub op: HTTPOp,
}

/// The various types of DNS entries a zone may hold.
#[derive(PartialEq, Eq, Structural, Clone, Copy, Debug)]
pub enum DNSType {
    A,
    AAAA,
    TXT,
    CNAME,
    MX,
    NS,
    CAA,
    SRV,
}

/// The wire name of each DNS entry type.
pub open spec fn spec_code(t: DNSType) -> Seq<char> {
    match t {
        DNSType::A => "A"@,
        DNSType::AAAA => "AAAA"@,
        DNSType::TXT => "TXT"@,
        DNSType::CNAME => "CNAME"@,
        DNSType::MX => "MX"@,
        DNSType::NS => "NS"@,
        DNSType::CAA => "CAA"@,
        DNSType::SRV => "SRV"@,
    }
}

/// The DNS entry type a wire name stands for; an unrecognized name falls
/// back to `TXT` instead of failing, a questionable but long-kept default.
pub open spec fn spec_from_code(s: Seq<char>) -> DNSType {
    if s == "A"@ {
        DNSType::A
    } else if s == "AAAA"@ {
        DNSType::AAAA
    } else if s == "TXT"@ {
        DNSType::TXT
    } else if s == "CNAME"@ {
        DNSType::CNAME
    } else if s == "MX"@ {
        DNSType::MX
    } else if s == "NS"@ {
        DNSType::NS
    } else if s == "CAA"@ {
        DNSType::CAA
    } else if s == "SRV"@ {
        DNSType::SRV
    } else {
        DNSType::TXT
    }
}

impl DNSType {
    /// The wire name of this entry type ("TXT", "AAAA", ...).
    pub fn code(&self) -> (r: &'static str)
        ensures
            r@ == spec_code(*self),
    {
        match self {
            DNSType::A => "A",
            DNSType::AAAA => "AAAA",
            DNSType::TXT => "TXT",
            DNSType::CNAME => "CNAME",
            DNSType::MX => "MX",
            DNSType::NS => "NS",
            DNSType::CAA => "CAA",
            DNSType::SRV => "SRV",
        }
    }

    /// The entry type a wire name stands for; an unrecognized name maps to
    /// `TXT` rather than failing, a questionable but long-standing default.
    pub fn from_code(s: &str) -> (r: DNSType)
        ensures
            r == spec_from_code(s@),
    {
        if eq_str(s, "A") {
            DNSType::A
        } else if eq_str(s, "AAAA") {
            DNSType::AAAA
        } else if eq_str(s, "TXT") {
            DNSType::TXT
        } else if eq_str(s, "CNAME") {
            DNSType::CNAME
        } else if eq_str(s, "MX") {
            DNSType::MX
        } else if eq_str(s, "NS") {
            DNSType::NS
        } else if eq_str(s, "CAA") {
            DNSType::CAA
        } else if eq_str(s, "SRV") {
            DNSType::SRV
        } else {
            DNSType::TXT
        }
    }
}

/// The verb each operation stands for.
pub open spec fn spec_verb(op: HTTPOp) -> Seq<char> {
    match op {
        HTTPOp::GET => "GET"@,
        HTTPOp::PUT(_) => "PUT"@,
        HTTPOp::POST(_) => "POST"@,
        HTTPOp::PATCH(_) => "PATCH"@,
        HTTPOp::DELETE => "DELETE"@,
    }
}

impl HTTPOp {
    /// The HTTP verb of this operation.
    pub fn verb(&self) -> (r: &'static str)
        ensures
            r@ == spec_verb(*self),
    {
        match self {
            HTTPOp::GET => "GET",
            HTTPOp::PUT(_) => "PUT",
            HTTPOp::POST(_) => "POST",
            HTTPOp::PATCH(_) => "PATCH",
            HTTPOp::DELETE => "DELETE",
        }
    }

    /// The request body this operation carries: nothing for GET and DELETE,
    /// the raw text for PUT, the URL-encoded form for POST -- which must
    /// hold at least one pair, each small enough to encode -- and for PATCH
    /// when it has one.
    pub fn encode_body(&self) -> (r: Result<Option<String>, Error>)
        ensures
            self is GET || self is DELETE ==> (r matches Ok(b) && b is None),
            self matches HTTPOp::PUT(text) ==> (r matches Ok(b) && (b matches Some(s) && s@
                == text@)),
            self matches HTTPOp::POST(d) ==> (if d@.len() == 0 {
                r matches Err(e) && e is InvalidPost
            } else if forall|i: int| 0 <= i < d@.len() ==> spec_pair_encodable(#[trigger] d@[i]) {
                r matches Ok(b) && (b matches Some(s) && s@ == spec_post_fields(d@))
            } else {
                r matches Err(e) && e is CurlError
            }),
            self matches HTTPOp::PATCH(None) ==> (r matches Ok(b) && b is None),
            self matches HTTPOp::PATCH(Some(d)) ==> (if d@.len() == 0 {
                r matches Err(e) && e is InvalidPost
            } else if forall|i: int| 0 <= i < d@.len() ==> spec_pair_encodable(#[trigger] d@[i]) {
                r matches Ok(b) && (b matches Some(s) && s@ == spec_post_fields(d@))
            } else {
                r matches Err(e) && e is CurlError
            }),
    {
        match self {
            HTTPOp::GET => Ok(None),
            HTTPOp::DELETE => Ok(None),
            HTTPOp::PUT(text) => Ok(Some(text.clone())),
            HTTPOp::POST(d) => match build_post_fields(d) {
                Ok(s) => Ok(Some(s)),
                Err(e) => Err(e),
            },
            HTTPOp::PATCH(None) => Ok(None),
            HTTPOp::PATCH(Some(d)) => match build_post_fields(d) {
                Ok(s) => Ok(Some(s)),
                Err(e) => Err(e),
            },
        }
    }
}

/// The longest byte sequence curl's percent-encoder accepts: its length is
/// passed as a positive 32-bit int.
pub open spec fn spec_encodable_len() -> int {
    0x8000_0000
}

/// Whether percent-encoding keeps a byte as it is: letters, digits and
/// `- . _ ~`, the unreserved set of RFC 3986 that curl's encoder uses.
pub open spec fn spec_unreserved(b: u8) -> bool {
    ||| 0x41 <= b <= 0x5a  // A-Z
    ||| 0x61 <= b <= 0x7a  // a-z
    ||| 0x30 <= b <= 0x39  // 0-9
    ||| b == 0x2d  // -
    ||| b == 0x2e  // .
    ||| b == 0x5f  // _
    ||| b == 0x7e  // ~
}

/// The uppercase hexadecimal digit standing for a value below 16.
pub open spec fn spec_hex_char(v: int) -> char {
    if v < 10 {
        crate::strutil::digit_char(v)
    } else if v == 10 {
        'A'
    } else if v == 11 {
        'B'
    } else if v == 12 {
        'C'
    } else if v == 13 {
        'D'
    } else if v == 14 {
        'E'
    } else {
        'F'
    }
}

/// The percent-encoding of one byte: the byte itself when unreserved, else
/// `%` followed by its two uppercase hexadecimal digits.
pub open spec fn spec_encoded_byte(b: u8) -> Seq<char> {
    if spec_unreserved(b) {
        seq![b as char]
    } else {
        seq!['%', spec_hex_char(b as int / 16), spec_hex_char(b as int % 16)]
    }
}

/// The percent-encoding of a byte sequence, byte for byte.
pub open spec fn spec_url_encoded(data: Seq<u8>) -> Seq<char>
    decreases data.len(),
{
    if data.len() == 0 {
        Seq::empty()
    } else {
        spec_encoded_byte(data.first()) + spec_url_encoded(data.drop_first())
    }
}

/// Relies on `curl::easy::Easy::url_encode` (`curl_easy_escape`):
/// percent-encodes the bytes, keeping each unreserved byte and writing every
/// other one as `%` plus two uppercase hexadecimal digits.  The length is
/// handed over as a positive 32-bit int, and the binding panics on a length
/// that does not fit, so such inputs are excluded here.
#[verifier::external_body]
fn url_encode(data: &[u8]) -> (r: String)
    requires
        data@.len() < spec_encodable_len(),
    ensures
        r@ == spec_url_encoded(data@),
{
    let mut handle = curl::easy::Easy::new();
    handle.url_encode(data)
}

/// Whether a form pair is small enough to percent-encode.
pub open spec fn spec_pair_encodable(p: PostData) -> bool {
    encode_utf8(p.0@).len() < spec_encodable_len() && encode_utf8(p.1@).len()
        < spec_encodable_len()
}

/// One form pair, percent-encoded and joined with `=`.
pub open spec fn spec_encoded_pair(p: PostData) -> Seq<char> {
    spec_url_encoded(encode_utf8(p.0@)) + "="@ + spec_url_encoded(encode_utf8(p.1@))
}

/// A whole form body: the encoded pairs joined with `&`.
pub open spec fn spec_post_fields(data: Seq<PostData>) -> Seq<char>
    decreases data.len(),
{
    if data.len() == 0 {
        Seq::empty()
    } else if data.len() == 1 {
        spec_encoded_pair(data[0])
    } else {
        spec_post_fields(data.drop_last()) + "&"@ + spec_encoded_pair(data.last())
    }
}

/// Renders form data as a URL-encoded `key=value` body joined with `&`.
/// A form with no pair at all is an invalid POST; one holding a pair too
/// large for the encoder is refused as an invalid query, before anything is
/// encoded.
pub fn build_post_fields(data: &Vec<PostData>) -> (r: Result<String, Error>)
    ensures
        data@.len() == 0 ==> (r matches Err(e) && e is InvalidPost),
        (data@.len() > 0 && (forall|i: int|
            0 <= i < data@.len() ==> spec_pair_encodable(#[trigger] data@[i]))) ==> (r matches Ok(s)
            && s@ == spec_post_fields(data@)),
        (exists|i: int| 0 <= i < data@.len() && !spec_pair_encodable(#[trigger] data@[i])) ==> (
        r matches Err(e) && e is CurlError),
{
    if data.len() == 0 {
        return Err(Error::InvalidPost);
    }
    let mut fields = String::new();
    let mut i: usize = 0;
    while i < data.len()
        invariant
            i <= data@.len(),
            0 < data@.len(),
            forall|j: int| 0 <= j < i ==> spec_pair_encodable(#[trigger] data@[j]),
            fields@ == spec_post_fields(data@.take(i as int)),
        decreases data@.len() - i,
    {
        let pair = &data[i];
        let key_bytes = pair.0.as_str().as_bytes();
        let value_bytes = pair.1.as_str().as_bytes();
        if key_bytes.len() >= 0x8000_0000 || value_bytes.len() >= 0x8000_0000 {
            return Err(Error::CurlError("form field too large to URL-encode".to_owned()));
        }
        if i > 0 {
            fields.append("&");
        }
        let key = url_encode(key_bytes);
        fields.append(key.as_str());
        fields.append("=");
        let value = url_encode(value_bytes);
        fields.append(value.as_str());
        proof {
            assert(data@.take(i + 1).drop_last() =~= data@.take(i as int));
            assert(data@.take(i + 1).last() == data@[i as int]);
            assert(fields@ =~= spec_post_fields(data@.take(i + 1)));
        }
        i = i + 1;
    }
    proof {
        assert(data@.take(data@.len() as int) =~= data@);
    }
    Ok(fields)
}

/// The request URL for a path below the provider's base URL.
pub fn full_url(api_endpoint: &str) -> (r: String)
    ensures
        r@ == spec_api_url() + api_endpoint@,
{
    let mut url = crate::api_url().to_owned();
    url.append(api_endpoint);
    url
}

/// The authentication header sent with every request.
pub fn auth_header(auth_token: &str) -> (r: String)
    ensures
        r@ == "Authorization: Bearer "@ + auth_token@,
{
    let mut auth = "Authorization: Bearer ".to_owned();
    auth.append(auth_token);
    auth
}

/// Sorts a finished exchange into a successful body or an [`Error`]: a
/// status in [200, 400) hands the body on, any other status becomes an API
/// error carrying the URL, the status and the untruncated body.
pub fn classify_response(status_code: u32, url: String, body: Vec<u8>) -> (r: Result<
    Vec<u8>,
    Error,
>)
    ensures
        200 <= status_code < 400 ==> (r matches Ok(b) && b == body),
        !(200 <= status_code < 400) ==> (r matches Err(e) && e matches Error::ApiError(a)
            && a.url == url && a.status_code == status_code && a.body == body),
{
    if 200 <= status_code && status_code < 400 {
        Ok(body)
    } else {
        Err(Error::ApiError(APIError { url, body, status_code }))
    }
}

/// The parse step of calls whose response carries nothing of use: any body
/// is accepted and thrown away.
pub fn throw_value(_data: &[u8]) -> (r: Result<(), Error>)
    ensures
        r is Ok,
{
    Ok(())
}

} // verus!
