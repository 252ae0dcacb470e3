use dns_online::api::available_domains_request;
use dns_online::error::{APIError, Error};
use dns_online::net::{
    auth_header, build_post_fields, classify_response, full_url, throw_value, HTTPOp, PostData,
};
use dns_online::strutil::{parse_u64, u64_to_string};

#[test]
fn urls_hang_off_the_fixed_base() {
    assert_eq!(dns_online::api_url(), "https://api.online.net/api/v1");
    assert_eq!(
        full_url("/domain/example.com/version"),
        "https://api.online.net/api/v1/domain/example.com/version"
    );
    let req = available_domains_request();
    assert_eq!(req.endpoint, "/domain/");
    assert!(matches!(req.op, HTTPOp::GET));
}

#[test]
fn every_request_carries_a_bearer_token_header() {
    assert_eq!(auth_header("tok3n"), "Authorization: Bearer tok3n");
}

#[test]
fn form_pairs_are_percent_encoded_and_joined() {
    let data = vec![
        PostData("name".to_string(), "hello world".to_string()),
        PostData("data".to_string(), "a=b&c".to_string()),
    ];
    let body = build_post_fields(&data).unwrap();
    assert_eq!(body, "name=hello%20world&data=a%3Db%26c");
}

#[test]
fn a_single_pair_has_no_separator() {
    let data = vec![PostData("name".to_string(), "tmp".to_string())];
    assert_eq!(build_post_fields(&data).unwrap(), "name=tmp");
}

#[test]
fn an_empty_form_is_an_invalid_post() {
    assert!(matches!(build_post_fields(&vec![]), Err(Error::InvalidPost)));
}

#[test]
fn success_statuses_hand_the_body_on() {
    let body = b"[1,2,3]".to_vec();
    assert_eq!(classify_response(200, "u".to_string(), body.clone()).unwrap(), body);
    assert_eq!(classify_response(204, "u".to_string(), body.clone()).unwrap(), body);
    assert_eq!(classify_response(399, "u".to_string(), body.clone()).unwrap(), body);
}

#[test]
fn error_statuses_become_api_errors() {
    for status in [199u32, 400, 404, 500] {
        match classify_response(status, "https://x/y".to_string(), b"oops".to_vec()) {
            Err(Error::ApiError(e)) => {
                assert_eq!(e.status_code, status);
                assert_eq!(e.url, "https://x/y");
                assert_eq!(e.body, b"oops".to_vec());
            }
            other => panic!("status {} must be an API error, got {:?}", status, other),
        }
    }
}

#[test]
fn throw_value_accepts_any_body() {
    assert!(throw_value(b"").is_ok());
    assert!(throw_value(b"ignored").is_ok());
}

#[test]
fn decimal_rendering_and_parsing() {
    assert_eq!(u64_to_string(0), "0");
    assert_eq!(u64_to_string(86400), "86400");
    assert_eq!(u64_to_string(u64::MAX), "18446744073709551615");
    assert_eq!(parse_u64("86400"), Some(86400));
    assert_eq!(parse_u64("0"), Some(0));
    assert_eq!(parse_u64(""), None);
    assert_eq!(parse_u64("12a"), None);
    assert_eq!(parse_u64("99999999999999999999999"), None);
}

#[test]
fn short_bodies_are_rendered_whole() {
    let e = APIError {
        url: "https://x/y".to_string(),
        body: b"not found".to_vec(),
        status_code: 404,
    };
    assert_eq!(
        e.describe(),
        "API Error(url = 'https://x/y', status_code = '404', body = 'not found')"
    );
}

#[test]
fn long_bodies_are_truncated_to_head_and_tail() {
    let mut body = String::new();
    for _ in 0..30 {
        body.push_str("0123456789");
    }
    // 300 characters: expect the first 100, a marker, and the last 50
    let e = APIError {
        url: "u".to_string(),
        body: body.clone().into_bytes(),
        status_code: 500,
    };
    let text = e.describe();
    let expected_body =
        format!("{}...OUTPUT TRUNCATED...{}", &body[0..100], &body[250..300]);
    assert_eq!(
        text,
        format!("API Error(url = 'u', status_code = '500', body = '{}')", expected_body)
    );
}

#[test]
fn each_error_variant_describes_itself() {
    assert_eq!(
        Error::CurlError("timed out".to_string()).describe(),
        "HTTP Query Error(timed out)"
    );
    assert_eq!(
        Error::SerdeError("expected value".to_string()).describe(),
        "Parsing Error(expected value)"
    );
    assert_eq!(
        Error::UnwrappingError.describe(),
        "Err... Tried to unwrap some None there ;("
    );
    assert_eq!(Error::InvalidVersion.describe(), "Invalid Zone Version Requested");
    assert_eq!(
        Error::ActiveZoneForbidden.describe(),
        "Mutation of the currently active Zone is Forbidden"
    );
    assert_eq!(
        Error::InvalidPost.describe(),
        "You tried to submit a POST with no argument"
    );
    assert_eq!(Error::NoRecord.describe(), "Couldn't find a matching record");
}

#[test]
fn invalid_utf8_in_a_body_is_rendered_lossily() {
    let e = APIError {
        url: "u".to_string(),
        body: vec![0x6f, 0x6f, 0x70, 0x73, 0xff],
        status_code: 500,
    };
    assert_eq!(
        e.describe(),
        format!("API Error(url = 'u', status_code = '500', body = 'oops{}')", '\u{FFFD}')
    );
}

#[test]
fn each_operation_knows_its_verb_and_body() {
    assert_eq!(HTTPOp::GET.verb(), "GET");
    assert_eq!(HTTPOp::DELETE.verb(), "DELETE");
    assert_eq!(HTTPOp::PUT("z".to_string()).verb(), "PUT");
    assert!(HTTPOp::GET.encode_body().unwrap().is_none());
    assert!(HTTPOp::DELETE.encode_body().unwrap().is_none());
    assert_eq!(
        HTTPOp::PUT("a IN A 1.2.3.4\n".to_string()).encode_body().unwrap().unwrap(),
        "a IN A 1.2.3.4\n"
    );
    assert!(HTTPOp::PATCH(None).encode_body().unwrap().is_none());
    let form = vec![PostData("name".to_string(), "a b".to_string())];
    assert_eq!(
        HTTPOp::PATCH(Some(form.clone())).encode_body().unwrap().unwrap(),
        "name=a%20b"
    );
    assert_eq!(HTTPOp::POST(form).encode_body().unwrap().unwrap(), "name=a%20b");
    assert!(matches!(
        HTTPOp::POST(vec![]).encode_body(),
        Err(Error::InvalidPost)
    ));
    assert!(matches!(
        HTTPOp::PATCH(Some(vec![])).encode_body(),
        Err(Error::InvalidPost)
    ));
}
