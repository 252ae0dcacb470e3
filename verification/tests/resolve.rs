use dns_online::api::Domain;

fn mk_domain(name: &str) -> Domain {
    Domain {
        api_key: "k".to_string(),
        id: 1,
        name: name.to_string(),
        dnssec: false,
        external: false,
    }
}

#[test]
fn resolves_acme_challenge_name() {
    let domains = vec![mk_domain("example.com")];
    let (d, local) = Domain::find_and_extract_path("_acme-challenge.example.com.", domains).unwrap();
    assert_eq!(d.name, "example.com");
    assert_eq!(local, "_acme-challenge");
}

#[test]
fn resolves_deep_name_and_strips_trailing_dot() {
    let domains = vec![mk_domain("test.fr"), mk_domain("nope.fr")];
    let (d, local) = Domain::find_and_extract_path("this.is.a.dummy.test.fr.", domains).unwrap();
    assert_eq!(d.name, "test.fr");
    assert_eq!(local, "this.is.a.dummy");
    assert!(!local.ends_with('.'));
}

#[test]
fn local_concatenation_identity() {
    let domains = vec![mk_domain("test.fr")];
    let fqdn = "a.b.test.fr";
    let (d, local) = Domain::find_and_extract_path(fqdn, domains).unwrap();
    assert_eq!(format!("{}.{}", local, d.name), fqdn);
}

#[test]
fn resolves_exact_domain_name_with_empty_local() {
    let domains = vec![mk_domain("example.com")];
    let (d, local) = Domain::find_and_extract_path("example.com.", domains).unwrap();
    assert_eq!(d.name, "example.com");
    assert_eq!(local, "");
}

#[test]
fn returns_nothing_when_no_domain_matches() {
    let domains = vec![mk_domain("example.com"), mk_domain("test.fr")];
    assert!(Domain::find_and_extract_path("something.example.org.", domains).is_none());
}

#[test]
fn returns_nothing_on_empty_candidate_set() {
    assert!(Domain::find_and_extract_path("a.example.com.", vec![]).is_none());
}

#[test]
fn suffix_without_label_boundary_does_not_match() {
    // "xtest.fr" ends with the characters of "test.fr", but not at a label
    // boundary: that must not count as belonging to test.fr.
    let domains = vec![mk_domain("test.fr")];
    assert!(Domain::find_and_extract_path("xtest.fr", domains).is_none());
}

#[test]
fn first_match_picks_iteration_order() {
    let domains = vec![mk_domain("example.com"), mk_domain("a.example.com")];
    let (d, local) = Domain::find_and_extract_path("x.a.example.com", domains).unwrap();
    assert_eq!(d.name, "example.com");
    assert_eq!(local, "x.a");
}

#[test]
fn longest_match_picks_most_specific_domain() {
    let domains = vec![mk_domain("example.com"), mk_domain("a.example.com")];
    let (d, local) = Domain::find_and_extract_path_longest("x.a.example.com", domains).unwrap();
    assert_eq!(d.name, "a.example.com");
    assert_eq!(local, "x");
}

#[test]
fn longest_match_agrees_with_first_match_when_unambiguous() {
    let domains = vec![mk_domain("test.fr"), mk_domain("nope.fr")];
    let (d, local) = Domain::find_and_extract_path_longest("this.is.a.dummy.test.fr.", domains).unwrap();
    assert_eq!(d.name, "test.fr");
    assert_eq!(local, "this.is.a.dummy");
}

#[test]
fn longest_match_returns_nothing_when_no_domain_matches() {
    let domains = vec![mk_domain("example.com")];
    assert!(Domain::find_and_extract_path_longest("other.org", domains).is_none());
}
