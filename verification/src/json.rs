//! Decoding of the provider's JSON responses into domains, versions and
//! records.
//!
//! serde_json parses the bytes; its tree is rebuilt, variant by variant, as
//! the library's own [`Json`] type, and the composite result of parsing is
//! named by the spec function [`json_of`].  Everything decided after that --
//! which fields must be present and of which shape, the two forms a TTL may
//! take, the fallback for an unknown record type -- is verified, with
//! contracts that say exactly on which trees decoding succeeds and what it
//! yields.

use vstd::prelude::*;

use crate::api::{Domain, Record, Version};
use crate::error::Error;
use crate::net::{spec_from_code, DNSType};
use crate::strutil::{all_digits, parse_u64, spec_digits_value};

verus! {

/// A JSON value, as this library reads one.  A number is kept only when it
/// fits an unsigned 64-bit integer -- every number this API exchanges (ids,
/// TTLs, statuses) does; any other number is kept as a bare marker.
#[derive(Debug)]
pub enum Json {
    Null,
    Bool(bool),
    Num(u64),
    Text(String),
    Array(Vec<Json>),
    Object(Vec<JsonField>),
    OtherNum,
}

/// One member of a JSON object.
#[derive(Debug)]
pub struct JsonField {
    pub key: String,
    pub value: Json,
}

#[verifier::external_type_specification]
#[verifier::external_body]
pub struct ExValue(serde_json::Value);

/// Relies on the variants of `serde_json::Value`: rebuilds the value as the
/// library's own tree, one arm per variant, moving the content; a number
/// outside the unsigned 64-bit range becomes the bare marker.
#[verifier::external_body]
fn convert_value(v: &serde_json::Value) -> Json {
    match v {
        serde_json::Value::Null => Json::Null,
        serde_json::Value::Bool(b) => Json::Bool(*b),
        serde_json::Value::Number(n) => match n.as_u64() {
            Some(u) => Json::Num(u),
            None => Json::OtherNum,
        },
        serde_json::Value::String(s) => Json::Text(s.clone()),
        serde_json::Value::Array(a) => Json::Array(a.iter().map(convert_value).collect()),
        serde_json::Value::Object(m) => Json::Object(
            m.iter().map(|(k, x)| JsonField { key: k.clone(), value: convert_value(x) }).collect(),
        ),
    }
}

/// What the bytes parse to as JSON, in the library's own tree, and nothing
/// when they are not valid JSON.  The result is a function of the bytes
/// alone: serde_json parses deterministically and iterates the members of
/// an object in a fixed key order.
pub uninterp spec fn json_of(body: Seq<u8>) -> Option<Json>;

/// Relies on `serde_json::from_slice::<Value>`: parses the bytes as one
/// JSON value, rebuilt as the library's tree; a parse failure is rendered
/// to text.  The composite result is named by [`json_of`].
#[verifier::external_body]
fn parse_json_tree(data: &[u8]) -> (r: Result<Json, String>)
    ensures
        r matches Ok(j) ==> json_of(data@) == Some(j),
        r is Err ==> json_of(data@) is None,
{
    match serde_json::from_slice::<serde_json::Value>(data) {
        Ok(v) => Ok(convert_value(&v)),
        Err(e) => Err(e.to_string()),
    }
}

/// The value under `key` among an object's members: the first member with
/// that key (serde_json keeps keys unique).
pub open spec fn spec_field(fields: Seq<JsonField>, key: Seq<char>) -> Option<Json>
    decreases fields.len(),
{
    if fields.len() == 0 {
        None
    } else if fields[0].key@ == key {
        Some(fields[0].value)
    } else {
        spec_field(fields.drop_first(), key)
    }
}

proof fn lemma_field_skip(fields: Seq<JsonField>, key: Seq<char>, i: int)
    requires
        0 <= i <= fields.len(),
        forall|j: int| 0 <= j < i ==> fields[j].key@ != key,
    ensures
        spec_field(fields, key) == spec_field(fields.skip(i), key),
    decreases i,
{
    if i > 0 {
        lemma_field_skip(fields, key, i - 1);
        assert(fields.skip(i - 1)[0] == fields[i - 1]);
        assert(fields.skip(i - 1).drop_first() =~= fields.skip(i));
    } else {
        assert(fields.skip(0) =~= fields);
    }
}

/// The member of an object under a key.
fn lookup<'a>(fields: &'a Vec<JsonField>, key: &str) -> (r: Option<&'a Json>)
    ensures
        r matches Some(j) ==> (spec_field(fields@, key@) matches Some(s) && *j == s),
        r is None <==> spec_field(fields@, key@) is None,
{
    let mut i: usize = 0;
    while i < fields.len()
        invariant
            i <= fields@.len(),
            forall|j: int| 0 <= j < i ==> fields@[j].key@ != key@,
        decreases fields@.len() - i,
    {
        if crate::strutil::eq_str(fields[i].key.as_str(), key) {
            proof {
                lemma_field_skip(fields@, key@, i as int);
                assert(fields@.skip(i as int)[0] == fields@[i as int]);
            }
            return Some(&fields[i].value);
        }
        i = i + 1;
    }
    proof {
        lemma_field_skip(fields@, key@, fields@.len() as int);
        assert(fields@.skip(fields@.len() as int) =~= Seq::<JsonField>::empty());
    }
    None
}

/// The text under a key, when the member is there and is a string.
fn field_string(fields: &Vec<JsonField>, key: &str) -> (r: Option<String>)
    ensures
        r matches Some(s) ==> (spec_field(fields@, key@) matches Some(Json::Text(t)) && s@ == t@),
        r is None <==> !(spec_field(fields@, key@) matches Some(Json::Text(_))),
{
    match lookup(fields, key) {
        Some(Json::Text(t)) => Some(t.clone()),
        _ => None,
    }
}

/// The number under a key, when the member is there and is one that fits.
fn field_num(fields: &Vec<JsonField>, key: &str) -> (r: Option<u64>)
    ensures
        r matches Some(n) ==> (spec_field(fields@, key@) matches Some(Json::Num(m)) && n == m),
        r is None <==> !(spec_field(fields@, key@) matches Some(Json::Num(_))),
{
    match lookup(fields, key) {
        Some(Json::Num(n)) => Some(*n),
        _ => None,
    }
}

/// The boolean under a key, when the member is there and is one.
fn field_bool(fields: &Vec<JsonField>, key: &str) -> (r: Option<bool>)
    ensures
        r matches Some(b) ==> (spec_field(fields@, key@) matches Some(Json::Bool(c)) && b == c),
        r is None <==> !(spec_field(fields@, key@) matches Some(Json::Bool(_))),
{
    match lookup(fields, key) {
        Some(Json::Bool(b)) => Some(*b),
        _ => None,
    }
}

/// The two shapes the provider returns a TTL in -- a JSON number or a
/// numeric string -- and everything else.
pub enum TtlValue {
    Number(u64),
    Text(String),
    Other,
}

/// Whether a TTL shape decodes to an integer.
pub open spec fn spec_ttl_decodes(t: TtlValue) -> bool {
    match t {
        TtlValue::Number(n) => n <= usize::MAX,
        TtlValue::Text(s) => s@.len() > 0 && all_digits(s@) && spec_digits_value(s@) <= usize::MAX
            as int,
        TtlValue::Other => false,
    }
}

/// The integer a decodable TTL shape stands for.
pub open spec fn spec_ttl_of(t: TtlValue) -> int {
    match t {
        TtlValue::Number(n) => n as int,
        TtlValue::Text(s) => spec_digits_value(s@),
        TtlValue::Other => 0,
    }
}

/// Reads a JSON value as one of the shapes a TTL may take: a number, a
/// string, or anything else.
pub fn ttl_value_of(j: &Json) -> (r: TtlValue)
    ensures
        *j matches Json::Num(n) ==> r == TtlValue::Number(n),
        *j matches Json::Text(s) ==> (r matches TtlValue::Text(t) && t@ == s@),
        !(*j is Num || *j is Text) ==> r is Other,
{
    match j {
        Json::Num(n) => TtlValue::Number(*n),
        Json::Text(s) => TtlValue::Text(s.clone()),
        _ => TtlValue::Other,
    }
}

/// Normalizes a TTL to one integer: a number is taken as it is, a string
/// must spell a number in decimal; anything else, or a value that does not
/// fit, is a decoding failure.
pub fn decode_ttl_value(t: &TtlValue) -> (r: Result<usize, Error>)
    ensures
        spec_ttl_decodes(*t) ==> (r matches Ok(v) && v == spec_ttl_of(*t)),
        !spec_ttl_decodes(*t) ==> (r matches Err(e) && e is UnwrappingError),
{
    match t {
        TtlValue::Number(n) => {
            if *n <= usize::MAX as u64 {
                Ok(*n as usize)
            } else {
                Err(Error::UnwrappingError)
            }
        },
        TtlValue::Text(s) => {
            match parse_u64(s.as_str()) {
                Some(v) => {
                    if v <= usize::MAX as u64 {
                        Ok(v as usize)
                    } else {
                        Err(Error::UnwrappingError)
                    }
                },
                None => Err(Error::UnwrappingError),
            }
        },
        TtlValue::Other => Err(Error::UnwrappingError),
    }
}

/// Builds a [`Version`] from its extracted fields: the reference, the name
/// and the active flag must all be present, and are taken as they are.
pub fn version_from_fields(
    uuid: Option<String>,
    name: Option<String>,
    active: Option<bool>,
) -> (r: Result<Version, Error>)
    ensures
        (uuid is Some && name is Some && active is Some) <==> r is Ok,
        r matches Ok(v) ==> (uuid matches Some(u) && v.uuid == u) && (name matches Some(n) && v.name
            == n) && (active matches Some(a) && v.active == a),
        r matches Err(e) ==> e is UnwrappingError,
{
    match (uuid, name, active) {
        (Some(uuid), Some(name), Some(active)) => Ok(Version { uuid, name, active }),
        _ => Err(Error::UnwrappingError),
    }
}

/// Builds a [`Record`] from its extracted fields: id, name, type and data
/// must be present, the id must fit, the TTL is normalized from either of
/// its two shapes, and an unknown type name falls back to `TXT`.
pub fn record_from_fields(
    id: Option<u64>,
    name: Option<String>,
    record_type: Option<String>,
    ttl: &TtlValue,
    data: Option<String>,
) -> (r: Result<Record, Error>)
    ensures
        ((id matches Some(i) && i <= usize::MAX) && name is Some && record_type is Some && data
            is Some && spec_ttl_decodes(*ttl)) <==> r is Ok,
        r matches Ok(rec) ==> (id matches Some(i) && rec.id == i) && (name matches Some(n)
            && rec.name == n) && (record_type matches Some(t) && rec.record_type == spec_from_code(
            t@,
        )) && rec.ttl == spec_ttl_of(*ttl) && (data matches Some(d) && rec.data == d),
        r matches Err(e) ==> e is UnwrappingError,
{
    let id = match id {
        Some(i) => {
            if i <= usize::MAX as u64 {
                i as usize
            } else {
                return Err(Error::UnwrappingError);
            }
        },
        None => {
            return Err(Error::UnwrappingError);
        },
    };
    let name = match name {
        Some(n) => n,
        None => {
            return Err(Error::UnwrappingError);
        },
    };
    let record_type = match record_type {
        Some(t) => DNSType::from_code(t.as_str()),
        None => {
            return Err(Error::UnwrappingError);
        },
    };
    let ttl = match decode_ttl_value(ttl) {
        Ok(v) => v,
        Err(e) => {
            return Err(e);
        },
    };
    let data = match data {
        Some(d) => d,
        None => {
            return Err(Error::UnwrappingError);
        },
    };
    Ok(Record { id, name, record_type, ttl, data })
}

/// Builds a [`Domain`] from its extracted fields and the caller's API key:
/// all fields must be present, the id must fit, and the key is attached to
/// the domain.
pub fn domain_from_fields(
    api_key: &str,
    id: Option<u64>,
    name: Option<String>,
    dnssec: Option<bool>,
    external: Option<bool>,
) -> (r: Result<Domain, Error>)
    ensures
        ((id matches Some(i) && i <= usize::MAX) && name is Some && dnssec is Some && external
            is Some) <==> r is Ok,
        r matches Ok(d) ==> d.api_key@ == api_key@ && (id matches Some(i) && d.id == i) && (
        name matches Some(n) && d.name == n) && (dnssec matches Some(s) && d.dnssec == s) && (
        external matches Some(x) && d.external == x),
        r matches Err(e) ==> e is UnwrappingError,
{
    match (id, name, dnssec, external) {
        (Some(id), Some(name), Some(dnssec), Some(external)) => {
            if id <= usize::MAX as u64 {
                Ok(Domain { api_key: api_key.to_owned(), id: id as usize, name, dnssec, external })
            } else {
                Err(Error::UnwrappingError)
            }
        },
        _ => Err(Error::UnwrappingError),
    }
}

// ------------------------------------------------------------------
// The shapes of the provider's response objects
// ------------------------------------------------------------------
/// Whether a JSON value spells a well-formed version object.
pub open spec fn spec_version_ok(j: Json) -> bool {
    match j {
        Json::Object(fields) => {
            &&& spec_field(fields@, "uuid_ref"@) matches Some(Json::Text(_))
            &&& spec_field(fields@, "name"@) matches Some(Json::Text(_))
            &&& spec_field(fields@, "active"@) matches Some(Json::Bool(_))
        },
        _ => false,
    }
}

/// Whether `v` is the version a JSON value spells.
pub open spec fn spec_version_matches(v: Version, j: Json) -> bool {
    match j {
        Json::Object(fields) => {
            &&& (spec_field(fields@, "uuid_ref"@) matches Some(Json::Text(u)) && v.uuid@ == u@)
            &&& (spec_field(fields@, "name"@) matches Some(Json::Text(n)) && v.name@ == n@)
            &&& (spec_field(fields@, "active"@) matches Some(Json::Bool(a)) && v.active == a)
        },
        _ => false,
    }
}

/// Whether a member's value decodes as a TTL: a number that fits, or a
/// string of digits spelling one.
pub open spec fn spec_json_ttl_decodes(j: Json) -> bool {
    match j {
        Json::Num(n) => n <= usize::MAX,
        Json::Text(s) => s@.len() > 0 && all_digits(s@) && spec_digits_value(s@) <= usize::MAX
            as int,
        _ => false,
    }
}

/// The integer a decodable TTL member stands for.
pub open spec fn spec_json_ttl_of(j: Json) -> int {
    match j {
        Json::Num(n) => n as int,
        Json::Text(s) => spec_digits_value(s@),
        _ => 0,
    }
}

/// Whether a JSON value spells a well-formed record object.
pub open spec fn spec_record_ok(j: Json) -> bool {
    match j {
        Json::Object(fields) => {
            &&& (spec_field(fields@, "id"@) matches Some(Json::Num(n)) && n <= usize::MAX)
            &&& spec_field(fields@, "name"@) matches Some(Json::Text(_))
            &&& spec_field(fields@, "type"@) matches Some(Json::Text(_))
            &&& (spec_field(fields@, "ttl"@) matches Some(t) && spec_json_ttl_decodes(t))
            &&& spec_field(fields@, "data"@) matches Some(Json::Text(_))
        },
        _ => false,
    }
}

/// Whether `rec` is the record a JSON value spells, with the type read
/// through the wire-name mapping and the TTL normalized.
pub open spec fn spec_record_matches(rec: Record, j: Json) -> bool {
    match j {
        Json::Object(fields) => {
            &&& (spec_field(fields@, "id"@) matches Some(Json::Num(n)) && rec.id == n)
            &&& (spec_field(fields@, "name"@) matches Some(Json::Text(n)) && rec.name@ == n@)
            &&& (spec_field(fields@, "type"@) matches Some(Json::Text(t)) && rec.record_type
                == spec_from_code(t@))
            &&& (spec_field(fields@, "ttl"@) matches Some(t) && rec.ttl == spec_json_ttl_of(t))
            &&& (spec_field(fields@, "data"@) matches Some(Json::Text(d)) && rec.data@ == d@)
        },
        _ => false,
    }
}

/// Whether a JSON value spells a well-formed domain object.
pub open spec fn spec_domain_ok(j: Json) -> bool {
    match j {
        Json::Object(fields) => {
            &&& (spec_field(fields@, "id"@) matches Some(Json::Num(n)) && n <= usize::MAX)
            &&& spec_field(fields@, "name"@) matches Some(Json::Text(_))
            &&& spec_field(fields@, "dnssec"@) matches Some(Json::Bool(_))
            &&& spec_field(fields@, "external"@) matches Some(Json::Bool(_))
        },
        _ => false,
    }
}

/// Whether `d` is the domain a JSON value spells, carrying `api_key`.
pub open spec fn spec_domain_matches(d: Domain, j: Json, api_key: Seq<char>) -> bool {
    match j {
        Json::Object(fields) => {
            &&& d.api_key@ == api_key
            &&& (spec_field(fields@, "id"@) matches Some(Json::Num(n)) && d.id == n)
            &&& (spec_field(fields@, "name"@) matches Some(Json::Text(n)) && d.name@ == n@)
            &&& (spec_field(fields@, "dnssec"@) matches Some(Json::Bool(s)) && d.dnssec == s)
            &&& (spec_field(fields@, "external"@) matches Some(Json::Bool(x)) && d.external == x)
        },
        _ => false,
    }
}

// ------------------------------------------------------------------
// Decoders
// ------------------------------------------------------------------
/// Decodes one JSON value as a [`Version`]: succeeds exactly on a
/// well-formed version object, and yields the version it spells.
pub fn decode_version(j: &Json) -> (r: Result<Version, Error>)
    ensures
        r is Ok <==> spec_version_ok(*j),
        r matches Ok(v) ==> spec_version_matches(v, *j),
        r matches Err(e) ==> e is UnwrappingError,
{
    let fields = match j {
        Json::Object(fields) => fields,
        _ => {
            return Err(Error::UnwrappingError);
        },
    };
    let uuid = field_string(fields, "uuid_ref");
    let name = field_string(fields, "name");
    let active = field_bool(fields, "active");
    version_from_fields(uuid, name, active)
}

/// Decodes one JSON value as a [`Record`]: succeeds exactly on a
/// well-formed record object, and yields the record it spells.
pub fn decode_record(j: &Json) -> (r: Result<Record, Error>)
    ensures
        r is Ok <==> spec_record_ok(*j),
        r matches Ok(rec) ==> spec_record_matches(rec, *j),
        r matches Err(e) ==> e is UnwrappingError,
{
    let fields = match j {
        Json::Object(fields) => fields,
        _ => {
            return Err(Error::UnwrappingError);
        },
    };
    let id = field_num(fields, "id");
    let name = field_string(fields, "name");
    let record_type = field_string(fields, "type");
    let ttl = match lookup(fields, "ttl") {
        Some(f) => ttl_value_of(f),
        None => TtlValue::Other,
    };
    let data = field_string(fields, "data");
    record_from_fields(id, name, record_type, &ttl, data)
}

/// Decodes one JSON value as a [`Domain`], attaching the API key: succeeds
/// exactly on a well-formed domain object.
pub fn decode_domain(j: &Json, api_key: &str) -> (r: Result<Domain, Error>)
    ensures
        r is Ok <==> spec_domain_ok(*j),
        r matches Ok(d) ==> spec_domain_matches(d, *j, api_key@),
        r matches Err(e) ==> e is UnwrappingError,
{
    let fields = match j {
        Json::Object(fields) => fields,
        _ => {
            return Err(Error::UnwrappingError);
        },
    };
    let id = field_num(fields, "id");
    let name = field_string(fields, "name");
    let dnssec = field_bool(fields, "dnssec");
    let external = field_bool(fields, "external");
    domain_from_fields(api_key, id, name, dnssec, external)
}

/// Whether a JSON value is an array whose every element spells a
/// well-formed version object.
pub open spec fn spec_versions_ok(j: Json) -> bool {
    match j {
        Json::Array(elems) => forall|i: int|
            0 <= i < elems@.len() ==> spec_version_ok(#[trigger] elems@[i]),
        _ => false,
    }
}

/// Whether `vs` lists exactly the versions an array spells, in order.
pub open spec fn spec_versions_match(vs: Seq<Version>, j: Json) -> bool {
    match j {
        Json::Array(elems) => vs.len() == elems@.len() && (forall|i: int|
            0 <= i < vs.len() ==> spec_version_matches(vs[i], #[trigger] elems@[i])),
        _ => false,
    }
}

/// Decodes a response body as the list of versions it spells: the bytes
/// must parse as a JSON array of well-formed version objects, and the
/// result lists them completely and in order.  Bytes that are not valid
/// JSON are a parse failure; a tree of the wrong shape is an unwrapping
/// failure.
pub fn decode_versions(body: &[u8]) -> (r: Result<Vec<Version>, Error>)
    ensures
        json_of(body@) is None ==> (r matches Err(e) && e is SerdeError),
        json_of(body@) matches Some(j) ==> {
            &&& r is Ok <==> spec_versions_ok(j)
            &&& (r matches Ok(vs) ==> spec_versions_match(vs@, j))
            &&& (r matches Err(e) ==> e is UnwrappingError)
        },
{
    let parsed = match parse_json_tree(body) {
        Ok(j) => j,
        Err(msg) => {
            return Err(Error::SerdeError(msg));
        },
    };
    let elems = match &parsed {
        Json::Array(elems) => elems,
        _ => {
            return Err(Error::UnwrappingError);
        },
    };
    let mut out: Vec<Version> = Vec::new();
    let mut i: usize = 0;
    while i < elems.len()
        invariant
            json_of(body@) == Some(parsed),
            parsed matches Json::Array(es) && es@ == elems@,
            i <= elems@.len(),
            out@.len() == i,
            forall|k: int| 0 <= k < i ==> spec_version_ok(#[trigger] elems@[k]),
            forall|k: int| 0 <= k < i ==> spec_version_matches(out@[k], #[trigger] elems@[k]),
        decreases elems@.len() - i,
    {
        let one = match decode_version(&elems[i]) {
            Ok(x) => x,
            Err(e) => {
                return Err(e);
            },
        };
        out.push(one);
        i = i + 1;
    }
    Ok(out)
}

/// Decodes a response body as the single version object it spells.
pub fn decode_version_body(body: &[u8]) -> (r: Result<Version, Error>)
    ensures
        json_of(body@) is None ==> (r matches Err(e) && e is SerdeError),
        json_of(body@) matches Some(j) ==> {
            &&& r is Ok <==> spec_version_ok(j)
            &&& (r matches Ok(v) ==> spec_version_matches(v, j))
            &&& (r matches Err(e) ==> e is UnwrappingError)
        },
{
    match parse_json_tree(body) {
        Ok(j) => decode_version(&j),
        Err(msg) => Err(Error::SerdeError(msg)),
    }
}

/// Whether a JSON value is an array whose every element spells a
/// well-formed record object.
pub open spec fn spec_records_ok(j: Json) -> bool {
    match j {
        Json::Array(elems) => forall|i: int|
            0 <= i < elems@.len() ==> spec_record_ok(#[trigger] elems@[i]),
        _ => false,
    }
}

/// Whether `rs` lists exactly the records an array spells, in order.
pub open spec fn spec_records_match(rs: Seq<Record>, j: Json) -> bool {
    match j {
        Json::Array(elems) => rs.len() == elems@.len() && (forall|i: int|
            0 <= i < rs.len() ==> spec_record_matches(rs[i], #[trigger] elems@[i])),
        _ => false,
    }
}

/// Decodes a response body as the list of records it spells: the bytes
/// must parse as a JSON array of well-formed record objects, and the
/// result lists them completely and in order.
pub fn decode_records(body: &[u8]) -> (r: Result<Vec<Record>, Error>)
    ensures
        json_of(body@) is None ==> (r matches Err(e) && e is SerdeError),
        json_of(body@) matches Some(j) ==> {
            &&& r is Ok <==> spec_records_ok(j)
            &&& (r matches Ok(rs) ==> spec_records_match(rs@, j))
            &&& (r matches Err(e) ==> e is UnwrappingError)
        },
{
    let parsed = match parse_json_tree(body) {
        Ok(j) => j,
        Err(msg) => {
            return Err(Error::SerdeError(msg));
        },
    };
    let elems = match &parsed {
        Json::Array(elems) => elems,
        _ => {
            return Err(Error::UnwrappingError);
        },
    };
    let mut out: Vec<Record> = Vec::new();
    let mut i: usize = 0;
    while i < elems.len()
        invariant
            json_of(body@) == Some(parsed),
            parsed matches Json::Array(es) && es@ == elems@,
            i <= elems@.len(),
            out@.len() == i,
            forall|k: int| 0 <= k < i ==> spec_record_ok(#[trigger] elems@[k]),
            forall|k: int| 0 <= k < i ==> spec_record_matches(out@[k], #[trigger] elems@[k]),
        decreases elems@.len() - i,
    {
        let one = match decode_record(&elems[i]) {
            Ok(x) => x,
            Err(e) => {
                return Err(e);
            },
        };
        out.push(one);
        i = i + 1;
    }
    Ok(out)
}

/// Decodes a response body as the single record object it spells.
pub fn decode_record_body(body: &[u8]) -> (r: Result<Record, Error>)
    ensures
        json_of(body@) is None ==> (r matches Err(e) && e is SerdeError),
        json_of(body@) matches Some(j) ==> {
            &&& r is Ok <==> spec_record_ok(j)
            &&& (r matches Ok(rec) ==> spec_record_matches(rec, j))
            &&& (r matches Err(e) ==> e is UnwrappingError)
        },
{
    match parse_json_tree(body) {
        Ok(j) => decode_record(&j),
        Err(msg) => Err(Error::SerdeError(msg)),
    }
}

/// Whether a JSON value is an array whose every element spells a
/// well-formed domain object.
pub open spec fn spec_domains_ok(j: Json) -> bool {
    match j {
        Json::Array(elems) => forall|i: int|
            0 <= i < elems@.len() ==> spec_domain_ok(#[trigger] elems@[i]),
        _ => false,
    }
}

/// Whether `ds` lists exactly the domains an array spells, in order, each
/// carrying `api_key`.
pub open spec fn spec_domains_match(ds: Seq<Domain>, j: Json, api_key: Seq<char>) -> bool {
    match j {
        Json::Array(elems) => ds.len() == elems@.len() && (forall|i: int|
            0 <= i < ds.len() ==> spec_domain_matches(ds[i], #[trigger] elems@[i], api_key)),
        _ => false,
    }
}

/// Get the list of all available domains pertaining to this user out of the
/// response body of the domain-list call: exactly the domains the body
/// spells, completely and in order, with the caller's API key attached to
/// each and every one of them.
pub fn query_available_domains(api_key: &str, body: &[u8]) -> (r: Result<Vec<Domain>, Error>)
    ensures
        json_of(body@) is None ==> (r matches Err(e) && e is SerdeError),
        json_of(body@) matches Some(j) ==> {
            &&& r is Ok <==> spec_domains_ok(j)
            &&& (r matches Ok(ds) ==> spec_domains_match(ds@, j, api_key@))
            &&& (r matches Err(e) ==> e is UnwrappingError)
        },
{
    let parsed = match parse_json_tree(body) {
        Ok(j) => j,
        Err(msg) => {
            return Err(Error::SerdeError(msg));
        },
    };
    let elems = match &parsed {
        Json::Array(elems) => elems,
        _ => {
            return Err(Error::UnwrappingError);
        },
    };
    let mut out: Vec<Domain> = Vec::new();
    let mut i: usize = 0;
    while i < elems.len()
        invariant
            json_of(body@) == Some(parsed),
            parsed matches Json::Array(es) && es@ == elems@,
            i <= elems@.len(),
            out@.len() == i,
            forall|k: int| 0 <= k < i ==> spec_domain_ok(#[trigger] elems@[k]),
            forall|k: int|
                0 <= k < i ==> spec_domain_matches(out@[k], #[trigger] elems@[k], api_key@),
        decreases elems@.len() - i,
    {
        let one = match decode_domain(&elems[i], api_key) {
            Ok(x) => x,
            Err(e) => {
                return Err(e);
            },
        };
        out.push(one);
        i = i + 1;
    }
    Ok(out)
}

} // verus!
