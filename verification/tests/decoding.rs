use dns_online::error::Error;
use dns_online::json::{
    decode_record_body, decode_records, decode_ttl_value, decode_version_body, decode_versions,
    query_available_domains, record_from_fields, ttl_value_of, version_from_fields, Json, TtlValue,
};
use dns_online::net::DNSType;

#[test]
fn ttl_number_and_numeric_string_decode_alike() {
    let n = decode_ttl_value(&ttl_value_of(&Json::Num(86400))).unwrap();
    let s = decode_ttl_value(&ttl_value_of(&Json::Text("86400".to_string()))).unwrap();
    assert_eq!(n, 86400);
    assert_eq!(s, 86400);
}

#[test]
fn ttl_rejects_non_numeric_shapes() {
    assert!(matches!(
        decode_ttl_value(&TtlValue::Text("12a".to_string())),
        Err(Error::UnwrappingError)
    ));
    assert!(matches!(
        decode_ttl_value(&TtlValue::Text("".to_string())),
        Err(Error::UnwrappingError)
    ));
    assert!(matches!(decode_ttl_value(&TtlValue::Other), Err(Error::UnwrappingError)));
    assert!(matches!(
        decode_ttl_value(&ttl_value_of(&Json::Null)),
        Err(Error::UnwrappingError)
    ));
    assert!(matches!(
        decode_ttl_value(&ttl_value_of(&Json::Bool(true))),
        Err(Error::UnwrappingError)
    ));
}

#[test]
fn decodes_record_with_numeric_ttl() {
    let body = br#"{"id":12,"name":"www.example.com.","type":"A","ttl":86400,"data":"10.0.0.1"}"#;
    let r = decode_record_body(body).unwrap();
    assert_eq!(r.id, 12);
    assert_eq!(r.name, "www.example.com.");
    assert_eq!(r.record_type, DNSType::A);
    assert_eq!(r.ttl, 86400);
    assert_eq!(r.data, "10.0.0.1");
}

#[test]
fn decodes_record_with_string_ttl() {
    let body = br#"{"id":12,"name":"w.example.com.","type":"TXT","ttl":"300","data":"x"}"#;
    let r = decode_record_body(body).unwrap();
    assert_eq!(r.ttl, 300);
    assert_eq!(r.record_type, DNSType::TXT);
}

#[test]
fn unknown_record_type_falls_back_to_txt() {
    let body = br#"{"id":1,"name":"n","type":"SPF","ttl":60,"data":"d"}"#;
    let r = decode_record_body(body).unwrap();
    assert_eq!(r.record_type, DNSType::TXT);
}

#[test]
fn each_known_type_round_trips() {
    let all = [
        (DNSType::A, "A"),
        (DNSType::AAAA, "AAAA"),
        (DNSType::TXT, "TXT"),
        (DNSType::CNAME, "CNAME"),
        (DNSType::MX, "MX"),
        (DNSType::NS, "NS"),
        (DNSType::CAA, "CAA"),
        (DNSType::SRV, "SRV"),
    ];
    for (ty, code) in all {
        assert_eq!(ty.code(), code);
        assert_eq!(DNSType::from_code(code), ty);
    }
}

#[test]
fn record_missing_field_is_a_decode_failure() {
    let body = br#"{"name":"n","type":"A","ttl":60,"data":"d"}"#;
    assert!(matches!(decode_record_body(body), Err(Error::UnwrappingError)));
    assert!(matches!(
        record_from_fields(Some(1), None, Some("A".to_string()), &TtlValue::Number(60), Some("d".to_string())),
        Err(Error::UnwrappingError)
    ));
}

#[test]
fn invalid_json_is_a_parse_failure() {
    assert!(matches!(decode_records(b"{not json"), Err(Error::SerdeError(_))));
    assert!(matches!(decode_version_body(b""), Err(Error::SerdeError(_))));
}

#[test]
fn a_list_is_refused_when_any_element_is_malformed() {
    // valid JSON, but the second element is no version object
    let body = br#"[
        {"uuid_ref":"u1","name":"old","active":false},
        {"uuid_ref":"u2","name":"live"}
    ]"#;
    assert!(matches!(decode_versions(body), Err(Error::UnwrappingError)));
    // valid JSON, but no array at all
    let body = br#"{"uuid_ref":"u1","name":"old","active":false}"#;
    assert!(matches!(decode_versions(body), Err(Error::UnwrappingError)));
    assert!(matches!(
        query_available_domains("k", br#"{"id":1}"#),
        Err(Error::UnwrappingError)
    ));
}

#[test]
fn decodes_version_list() {
    let body = br#"[
        {"uuid_ref":"u1","name":"old","active":false},
        {"uuid_ref":"u2","name":"live","active":true}
    ]"#;
    let vs = decode_versions(body).unwrap();
    assert_eq!(vs.len(), 2);
    assert_eq!(vs[0].uuid, "u1");
    assert!(!vs[0].active);
    assert_eq!(vs[1].name, "live");
    assert!(vs[1].active);
}

#[test]
fn version_missing_field_is_a_decode_failure() {
    let body = br#"{"uuid_ref":"u1","name":"old"}"#;
    assert!(matches!(decode_version_body(body), Err(Error::UnwrappingError)));
    assert!(matches!(
        version_from_fields(None, Some("n".to_string()), Some(true)),
        Err(Error::UnwrappingError)
    ));
}

#[test]
fn decodes_record_list() {
    let body = br#"[
        {"id":1,"name":"a","type":"A","ttl":60,"data":"1.1.1.1"},
        {"id":2,"name":"b","type":"MX","ttl":"120","data":"mail.example.com."}
    ]"#;
    let rs = decode_records(body).unwrap();
    assert_eq!(rs.len(), 2);
    assert_eq!(rs[1].record_type, DNSType::MX);
    assert_eq!(rs[1].ttl, 120);
}

#[test]
fn domains_carry_the_callers_api_key() {
    let body = br#"[
        {"id":10,"name":"example.com","dnssec":false,"external":false},
        {"id":11,"name":"test.fr","dnssec":true,"external":false}
    ]"#;
    let ds = query_available_domains("api-key-1", body).unwrap();
    assert_eq!(ds.len(), 2);
    for d in &ds {
        assert_eq!(d.api_key, "api-key-1");
    }
    assert_eq!(ds[0].name, "example.com");
    assert_eq!(ds[1].id, 11);
    assert!(ds[1].dnssec);
}
