use oss_client::classify_response;
use oss_client::config::AuthVersion;
use oss_client::escape::form_escape;
use oss_client::escape::query_escape;
use oss_client::params::is_param_sign;
use oss_client::params::sub_resource;
use oss_client::params::url_params;
use oss_client::sign::authorization_value;
use oss_client::sign::compute_signature;
use oss_client::sign::get_resource;
use oss_client::sign::get_signed_str;
use oss_client::util::http_date;
use oss_client::ClientBuilder;
use oss_client::Conn;
use oss_client::Headers;
use oss_client::Method;
use oss_client::OssError;
use oss_client::Params;
use oss_client::address::is_ipv4_literal;
use oss_client::UrlType;

fn conn_with(endpoint: &str, version: AuthVersion) -> Conn {
    let mut b = ClientBuilder::new()
        .endpoint(endpoint.to_string())
        .access_key("AK".to_string())
        .access_secret("secret".to_string());
    b.config.ua = "test-ua".to_string();
    b.config.auth_version = version;
    b.build().expect("endpoint resolves")
}

const DATE: &str = "Thu, 17 Nov 2005 18:49:58 GMT";

#[test]
fn test_resolve_virtual_hosted() {
    let conn = conn_with("oss-cn-hangzhou.aliyuncs.com", AuthVersion::V1);
    assert_eq!(conn.url_maker.typ, UrlType::ALIYUN);
    assert_eq!(conn.url_maker.schema, "http");
    let url = conn.url_maker.get_url("mybucket", "a.txt", "");
    assert_eq!(url, "http://mybucket.oss-cn-hangzhou.aliyuncs.com/a.txt");
}

#[test]
fn test_resolve_keeps_https_scheme() {
    let conn = conn_with("https://oss.example.com", AuthVersion::V1);
    assert_eq!(conn.url_maker.schema, "https");
    assert_eq!(conn.url_maker.net_loc, "oss.example.com");
}

#[test]
fn test_resolve_rejects_bad_scheme() {
    let b = ClientBuilder::new().endpoint("ftp://example.com".to_string());
    assert!(matches!(b.build(), Err(OssError::Config(_))));
}

#[test]
fn test_resolve_rejects_unparsable_endpoint() {
    let b = ClientBuilder::new().endpoint("exa mple.com".to_string());
    assert!(matches!(b.build(), Err(OssError::Config(_))));
}

#[test]
fn test_ip_literal_wins_over_cname() {
    let mut b = ClientBuilder::new().endpoint("192.168.0.1".to_string());
    b.config.cname = true;
    let conn = b.build().expect("resolves");
    assert_eq!(conn.url_maker.typ, UrlType::IP);
    let url = conn.url_maker.get_url("b", "k", "");
    assert_eq!(url, "http://192.168.0.1/b/k");
}

#[test]
fn test_cname_mode() {
    let mut b = ClientBuilder::new().endpoint("static.example.com".to_string());
    b.config.cname = true;
    let conn = b.build().expect("resolves");
    assert_eq!(conn.url_maker.typ, UrlType::CNAME);
    let url = conn.url_maker.get_url("ignored", "k", "x=1");
    assert_eq!(url, "http://static.example.com/k?x=1");
}

#[test]
fn test_non_ipv4_hosts_stay_virtual_hosted() {
    let conn = conn_with("a.b.c.d", AuthVersion::V1);
    assert_eq!(conn.url_maker.typ, UrlType::ALIYUN);
    let conn = conn_with("0.0.0.0", AuthVersion::V1);
    assert_eq!(conn.url_maker.typ, UrlType::IP);
}

#[test]
fn test_ipv4_literal_edge_cases() {
    assert!(is_ipv4_literal("1.2.3.4"));
    assert!(is_ipv4_literal("255.255.255.255"));
    assert!(is_ipv4_literal("0.0.0.0"));
    assert!(!is_ipv4_literal("256.1.1.1"));
    assert!(!is_ipv4_literal("01.2.3.4"));
    assert!(!is_ipv4_literal("1.2.3"));
    assert!(!is_ipv4_literal("1.2.3.4.5"));
    assert!(!is_ipv4_literal("a.b.c.d"));
    assert!(!is_ipv4_literal(""));
    assert!(!is_ipv4_literal("1..2.3"));
}

#[test]
fn test_sub_resource_v1_sorted() {
    let mut p = Params::new();
    p.set("uploads".to_string(), None);
    p.set("partNumber".to_string(), Some("3".to_string()));
    let s = sub_resource(&p, AuthVersion::V1);
    assert_eq!(s, "partNumber=3&uploads");
}

#[test]
fn test_sub_resource_v1_filters_unknown_names() {
    let mut p = Params::new();
    p.set("foo".to_string(), Some("bar".to_string()));
    p.set("acl".to_string(), None);
    let s = sub_resource(&p, AuthVersion::V1);
    assert_eq!(s, "acl");
}

#[test]
fn test_sub_resource_v2_escapes() {
    let mut p = Params::new();
    p.set("key with space".to_string(), Some("a b".to_string()));
    p.set("uploads".to_string(), Some("".to_string()));
    let s = sub_resource(&p, AuthVersion::V2);
    assert_eq!(s, "key+with+space=a%20b&uploads");
}

#[test]
fn test_url_params_space_is_percent_20() {
    let mut p = Params::new();
    p.set("a b".to_string(), Some("c d".to_string()));
    assert_eq!(url_params(&p), "a%20b=c%20d");
    let mut q = Params::new();
    q.set("flag".to_string(), None);
    assert_eq!(url_params(&q), "");
}

#[test]
fn test_escapers() {
    assert_eq!(query_escape("a b/c"), "a%20b%2Fc");
    assert_eq!(query_escape("A-Za-z0-9*-._"), "A-Za-z0-9*-._");
    assert_eq!(form_escape("/b/"), "%2Fb%2F");
    assert_eq!(form_escape("a b"), "a+b");
}

#[test]
fn test_is_param_sign() {
    assert!(is_param_sign("acl"));
    assert!(is_param_sign("uploads"));
    assert!(is_param_sign("x-oss-process"));
    assert!(!is_param_sign("foo"));
    assert!(!is_param_sign("ACL"));
}

#[test]
fn test_authorization_v1_format() {
    let v = authorization_value(AuthVersion::V1, "AK", &Vec::new(), "SIG");
    assert_eq!(v, "OSS AK:SIG");
}

#[test]
fn test_authorization_v2_formats() {
    let v = authorization_value(AuthVersion::V2, "AK", &Vec::new(), "SIG");
    assert_eq!(v, "OSS2 AccessKeyId:AK,Signature:SIG");
    let with = authorization_value(AuthVersion::V2, "AK", &vec!["x-custom".to_string()], "SIG");
    assert_eq!(with, "OSS2 AccessKeyId:AK,AdditionalHeaders:x-custom,Signature:SIG");
}

#[test]
fn test_golden_signature_v1() {
    let mut h = Headers::new();
    h.set("content-md5".to_string(), "c8fdb181845a4ca6b8fec737b3581d76".to_string());
    h.set("content-type".to_string(), "text/html".to_string());
    h.set("date".to_string(), DATE.to_string());
    h.set("X-OSS-Meta-Author".to_string(), "foo@bar.com".to_string());
    h.set("X-OSS-Magic".to_string(), "abracadabra".to_string());
    let sig = get_signed_str(
        AuthVersion::V1,
        Method::Put,
        &h,
        &Vec::new(),
        "/oss-example/nelson",
        "OtxrzxIsfpFjA7SwPzILwy8Bw21TLhquhboDYROV",
    );
    assert_eq!(sig, "dZpCvvKgxiFw6wvMHHj5g3W6STM=");
}

#[test]
fn test_golden_signature_v2() {
    let mut h = Headers::new();
    h.set("content-md5".to_string(), "c8fdb181845a4ca6b8fec737b3581d76".to_string());
    h.set("content-type".to_string(), "text/html".to_string());
    h.set("date".to_string(), DATE.to_string());
    h.set("x-oss-meta-author".to_string(), "foo@bar.com".to_string());
    h.set("x-oss-magic".to_string(), "abracadabra".to_string());
    let sig = get_signed_str(
        AuthVersion::V2,
        Method::Put,
        &h,
        &Vec::new(),
        "/oss-example/nelson",
        "OtxrzxIsfpFjA7SwPzILwy8Bw21TLhquhboDYROV",
    );
    assert_eq!(sig, "UqgzRo6d2VUC3vB148XcNW40cGRJDwSPKT0T6Q3lwpk=");
}

#[test]
fn test_signer_deterministic_and_sensitive() {
    let a = compute_signature(AuthVersion::V1, "secret", "GET\n\n\n\n/");
    let b = compute_signature(AuthVersion::V1, "secret", "GET\n\n\n\n/");
    assert_eq!(a, b);
    let c = compute_signature(AuthVersion::V1, "secret", "GET\n\n\n\n/x");
    assert_ne!(a, c);
    let d = compute_signature(AuthVersion::V2, "secret", "GET\n\n\n\n/");
    assert_ne!(a, d);
}

#[test]
fn test_execute_v1_signs_and_addresses() {
    let conn = conn_with("oss.example.com", AuthVersion::V1);
    let req = conn.execute(
        Method::Get,
        "b",
        "o",
        None,
        None,
        Vec::new(),
        DATE.to_string(),
    );
    assert_eq!(req.url, "http://b.oss.example.com/o");
    assert_eq!(req.headers.get("content-length").unwrap().as_str(), "0");
    assert_eq!(req.headers.get("user-agent").unwrap().as_str(), "test-ua");
    assert_eq!(req.headers.get("host").unwrap().as_str(), "b.oss.example.com");
    assert_eq!(req.headers.get("date").unwrap().as_str(), DATE);
    assert_eq!(
        req.headers.get("authorization").unwrap().as_str(),
        "OSS AK:s/N0IidwI0VR3XHPffIGrWzhUqY="
    );
    assert!(req.headers.get("x-oss-security-token").is_none());
}

#[test]
fn test_execute_v2_with_additional_header() {
    let mut b = ClientBuilder::new()
        .endpoint("oss.example.com".to_string())
        .access_key("AK".to_string())
        .access_secret("secret".to_string());
    b.config.ua = "test-ua".to_string();
    b.config.auth_version = AuthVersion::V2;
    b.config.additional_headers = vec!["X-Custom".to_string()];
    let conn = b.build().expect("resolves");
    let mut h = Headers::new();
    h.set("x-custom".to_string(), "v".to_string());
    let req = conn.execute(
        Method::Get,
        "b",
        "o",
        None,
        Some(h),
        Vec::new(),
        DATE.to_string(),
    );
    let auth = req.headers.get("authorization").unwrap().as_str().to_string();
    assert!(auth.contains("AdditionalHeaders:x-custom"), "{auth}");
    assert_eq!(
        auth,
        "OSS2 AccessKeyId:AK,AdditionalHeaders:x-custom,Signature:wKl/h0QONSZW0btt/U3PwuFYkofynfo5LPtzLA8JWws="
    );
}

#[test]
fn test_execute_sets_content_md5_when_enabled() {
    let mut b = ClientBuilder::new()
        .endpoint("oss.example.com".to_string())
        .access_key("AK".to_string())
        .access_secret("secret".to_string());
    b.config.enable_md5 = true;
    let conn = b.build().expect("resolves");
    let req = conn.execute(
        Method::Put,
        "b",
        "o",
        None,
        None,
        b"hello world".to_vec(),
        DATE.to_string(),
    );
    assert_eq!(req.headers.get("content-length").unwrap().as_str(), "11");
    assert_eq!(
        req.headers.get("content-md5").unwrap().as_str(),
        "5eb63bbbe01eeed093cb22bb8f5acdc3"
    );
}

#[test]
fn test_execute_sets_security_token() {
    let mut b = ClientBuilder::new()
        .endpoint("oss.example.com".to_string())
        .access_key("AK".to_string())
        .access_secret("secret".to_string());
    b.config.security_token = Some("tok".to_string());
    let conn = b.build().expect("resolves");
    let req = conn.execute(Method::Get, "b", "o", None, None, Vec::new(), DATE.to_string());
    assert_eq!(req.headers.get("x-oss-security-token").unwrap().as_str(), "tok");
}

#[test]
fn test_execute_appends_query_string() {
    let conn = conn_with("oss.example.com", AuthVersion::V1);
    let mut p = Params::new();
    p.set("acl".to_string(), None);
    p.set("partNumber".to_string(), Some("3".to_string()));
    let req = conn.execute(
        Method::Get,
        "b",
        "o",
        Some(p),
        None,
        Vec::new(),
        DATE.to_string(),
    );
    assert_eq!(req.url, "http://b.oss.example.com/o?partNumber=3");
}

#[test]
fn test_classify_service_error() {
    let body =
        b"<Error><Code>NoSuchKey</Code><Message>The specified key does not exist.</Message><RequestId>abc-123</RequestId></Error>"
            .to_vec();
    match classify_response(404, body) {
        Err(OssError::Service { status, code, message, request_id }) => {
            assert_eq!(status, 404);
            assert_eq!(code, "NoSuchKey");
            assert_eq!(message, "The specified key does not exist.");
            assert_eq!(request_id, "abc-123");
        }
        other => panic!("unexpected classification: {other:?}"),
    }
}

#[test]
fn test_classify_unparsed_error_keeps_text() {
    match classify_response(500, b"not xml".to_vec()) {
        Err(OssError::UnparsedService { status, raw_body }) => {
            assert_eq!(status, 500);
            assert_eq!(raw_body, "not xml");
        }
        other => panic!("unexpected classification: {other:?}"),
    }
}

#[test]
fn test_classify_lossy_decodes_invalid_bytes() {
    match classify_response(500, vec![0xff, b'a']) {
        Err(OssError::UnparsedService { raw_body, .. }) => {
            assert_eq!(raw_body, "\u{FFFD}a");
        }
        other => panic!("unexpected classification: {other:?}"),
    }
}

#[test]
fn test_classify_success_passes_body_through() {
    let body = vec![1u8, 2, 3];
    match classify_response(204, body.clone()) {
        Ok(b) => assert_eq!(b, body),
        Err(e) => panic!("unexpected error: {e:?}"),
    }
}

#[test]
fn test_http_date_epoch() {
    assert_eq!(http_date(0), "Thu, 01 Jan 1970 00:00:00 GMT");
}

#[test]
fn test_http_date_recent() {
    assert_eq!(http_date(1700000000), "Tue, 14 Nov 2023 22:13:20 GMT");
}

#[test]
fn test_builder_setters() {
    let b = ClientBuilder::new()
        .endpoint("e".to_string())
        .access_key("k".to_string())
        .access_secret("s".to_string());
    assert_eq!(b.config.endpoint, "e");
    assert_eq!(b.config.access_key_id, "k");
    assert_eq!(b.config.access_key_secret, "s");
}

#[test]
fn test_resource_forms() {
    assert_eq!(get_resource(AuthVersion::V1, "", "", ""), "/");
    assert_eq!(get_resource(AuthVersion::V1, "", "", "acl"), "/?acl");
    assert_eq!(get_resource(AuthVersion::V1, "b", "o", "acl"), "/b/o?acl");
    assert_eq!(get_resource(AuthVersion::V2, "", "", ""), "%2F");
    assert_eq!(get_resource(AuthVersion::V2, "", "", "acl"), "%2F?acl");
    assert_eq!(get_resource(AuthVersion::V2, "b", "o", ""), "%2Fb%2Fo");
}

#[test]
fn test_headers_map_behaviour() {
    let mut h = Headers::new();
    h.set("a".to_string(), "1".to_string());
    h.set("a".to_string(), "2".to_string());
    assert_eq!(h.get("a").unwrap().as_str(), "2");
    assert!(h.has_key("a"));
    assert!(!h.has_key("A"));
    assert!(h.get("b").is_none());
}
