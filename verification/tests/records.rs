use dns_online::api::{find_entry, Domain, Record, Version};
use dns_online::net::DNSType;

fn mk_domain() -> Domain {
    Domain {
        api_key: "k".to_string(),
        id: 1,
        name: "example.com".to_string(),
        dnssec: false,
        external: false,
    }
}

fn mk_record(name: &str, ty: DNSType, data: &str) -> Record {
    Record {
        id: 7,
        name: name.to_string(),
        record_type: ty,
        ttl: 3600,
        data: data.to_string(),
    }
}

#[test]
fn record_new_has_zero_id() {
    let r = Record::new("www.example.com.", DNSType::A, "10.0.0.1", 86400);
    assert_eq!(r.id, 0);
    assert_eq!(r.name, "www.example.com.");
    assert_eq!(r.record_type, DNSType::A);
    assert_eq!(r.ttl, 86400);
    assert_eq!(r.data, "10.0.0.1");
}

#[test]
fn filter_is_pure_and_ordered() {
    let d = mk_domain();
    let records = vec![
        mk_record("a.example.com", DNSType::A, "1.1.1.1"),
        mk_record("b.example.com", DNSType::A, "2.2.2.2"),
        mk_record("a.example.com", DNSType::TXT, "x"),
    ];
    let once = d.filter_records(&records, "a.example.com", None).unwrap();
    let twice = d.filter_records(&records, "a.example.com", None).unwrap();
    assert_eq!(once, twice);
    assert_eq!(once.len(), 2);
    assert_eq!(once[0].data, "1.1.1.1");
    assert_eq!(once[1].data, "x");
}

#[test]
fn filter_matches_name_exactly() {
    let d = mk_domain();
    let records = vec![mk_record("a.example.com", DNSType::A, "1.1.1.1")];
    assert!(d.filter_records(&records, "a.example.co", None).is_none());
    assert!(d.filter_records(&records, "a.example.com.", None).is_none());
    assert!(d.filter_records(&records, "a.example.com", None).is_some());
}

#[test]
fn filter_accepts_quoted_and_unquoted_txt_value() {
    let d = mk_domain();
    let records = vec![mk_record("c.example.com", DNSType::TXT, "\"token\"")];
    // the provider hands TXT data back wrapped in quotes; the caller may
    // look it up either way
    let raw = d.filter_records(&records, "c.example.com", Some("\"token\""));
    let stripped = d.filter_records(&records, "c.example.com", Some("token"));
    assert_eq!(raw.unwrap().len(), 1);
    assert_eq!(stripped.unwrap().len(), 1);
    assert!(d.filter_records(&records, "c.example.com", Some("other")).is_none());
}

#[test]
fn filter_on_value_without_quotes_needs_exact_data() {
    let d = mk_domain();
    let records = vec![mk_record("c.example.com", DNSType::TXT, "token")];
    assert!(d.filter_records(&records, "c.example.com", Some("token")).is_some());
    assert!(d.filter_records(&records, "c.example.com", Some("\"token\"")).is_none());
}

#[test]
fn find_entry_matches_type_names_and_value() {
    let records = vec![
        mk_record("a.example.com", DNSType::A, "1.1.1.1"),
        mk_record("c.example.com", DNSType::TXT, "\"tok\""),
    ];
    let hit = find_entry(&records, "c.example.com", "c", DNSType::TXT, Some("tok")).unwrap();
    assert_eq!(hit.data, "\"tok\"");
    let by_short = find_entry(&records, "nope", "a.example.com", DNSType::A, None).unwrap();
    assert_eq!(by_short.data, "1.1.1.1");
    assert!(find_entry(&records, "c.example.com", "c", DNSType::A, Some("tok")).is_none());
    assert!(find_entry(&records, "c.example.com", "c", DNSType::TXT, Some("bad")).is_none());
}

#[test]
fn current_zone_is_first_active_version() {
    let d = mk_domain();
    let versions = vec![
        Version { uuid: "u1".to_string(), name: "old".to_string(), active: false },
        Version { uuid: "u2".to_string(), name: "live".to_string(), active: true },
        Version { uuid: "u3".to_string(), name: "next".to_string(), active: false },
    ];
    let live = d.get_current_zone(&versions).unwrap();
    assert_eq!(live.uuid, "u2");
}

#[test]
fn current_zone_fails_with_no_record_when_none_active() {
    let d = mk_domain();
    let versions = vec![Version { uuid: "u1".to_string(), name: "old".to_string(), active: false }];
    let e = d.get_current_zone(&versions).unwrap_err();
    assert!(matches!(e, dns_online::error::Error::NoRecord));
}
