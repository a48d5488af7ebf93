use acli_rust::client::{base64_encode, cloud_id_of, parse_failure, response_result, transport_failure, Body, Client};
use acli_rust::config::Profile;
use acli_rust::json::JsonValue;

fn profile(url: &str, email: &str, token: &str) -> Profile {
    Profile {
        name: "test".to_string(),
        atlassian_url: url.to_string(),
        email: email.to_string(),
        api_token: token.to_string(),
        defaults: None,
    }
}

fn client() -> Client {
    Client::new(profile("https://example.atlassian.net/", "test@example.com", "test-token"))
}

#[test]
fn test_base64_encode_three_bytes() {
    assert_eq!(base64_encode("Man"), "TWFu");
}

#[test]
fn test_base64_encode_two_bytes() {
    assert_eq!(base64_encode("Ma"), "TWE=");
}

#[test]
fn test_base64_encode_one_byte() {
    assert_eq!(base64_encode("M"), "TQ==");
}

#[test]
fn test_base64_encode_empty() {
    assert_eq!(base64_encode(""), "");
}

#[test]
fn test_base64_encode_credentials() {
    let encoded = base64_encode("user@example.com:token123");
    assert!(!encoded.is_empty());
    assert!(encoded
        .chars()
        .all(|c| c.is_alphanumeric() || c == '+' || c == '/' || c == '='));
}

#[test]
fn base64_of_longer_and_non_ascii_text() {
    assert_eq!(base64_encode("user@example.com:token123"), "dXNlckBleGFtcGxlLmNvbTp0b2tlbjEyMw==");
    assert_eq!(base64_encode("é"), "w6k=");
    // four characters for every three bytes started
    assert_eq!(base64_encode("abcdefg").len(), 12);
}

#[test]
fn client_new_trims_trailing_slashes() {
    let c = Client::new(profile("https://x.atlassian.net///", "a@b.c", "t"));
    assert_eq!(c.base_url, "https://x.atlassian.net");
    assert_eq!(c.email, "a@b.c");
    assert_eq!(c.api_token, "t");
}

#[test]
fn request_uses_basic_auth_with_email() {
    let c = client();
    let r = c.request("GET", "/rest/api/3/myself", None, None);
    assert_eq!(r.method, "GET");
    assert_eq!(r.url, "https://example.atlassian.net/rest/api/3/myself");
    assert_eq!(r.headers.len(), 2);
    assert_eq!(r.headers[0].0, "Authorization");
    assert_eq!(r.headers[0].1, format!("Basic {}", base64_encode("test@example.com:test-token")));
    assert_eq!(r.headers[1], ("Accept".to_string(), "application/json".to_string()));
    assert!(matches!(r.body, Body::Empty));
}

#[test]
fn request_uses_bearer_auth_without_email() {
    let c = Client::new(profile("https://x", "", "tok"));
    let r = c.request("GET", "/p", None, None);
    assert_eq!(r.headers[0], ("Authorization".to_string(), "Bearer tok".to_string()));
    let c = Client::new(profile("https://x", "", ""));
    let r = c.request("GET", "/p", None, None);
    assert_eq!(r.headers.len(), 1);
    assert_eq!(r.headers[0].0, "Accept");
}

#[test]
fn request_percent_encodes_query_parameters() {
    let c = client();
    let q: [(&str, &str); 2] = [("jql", "project = A&B"), ("max", "5")];
    let r = c.request("GET", "/search", Some(&q), None);
    assert_eq!(r.url, "https://example.atlassian.net/search?jql=project%20%3D%20A%26B&max=5");
    let empty: [(&str, &str); 0] = [];
    let r = c.request("GET", "/search", Some(&empty), None);
    assert_eq!(r.url, "https://example.atlassian.net/search");
}

#[test]
fn request_keeps_absolute_urls_and_sends_json() {
    let c = client();
    let body = JsonValue::Object(vec![("a".to_string(), JsonValue::Bool(true))]);
    let r = c.request("POST", "https://api.bitbucket.org/2.0/x", None, Some(body));
    assert_eq!(r.url, "https://api.bitbucket.org/2.0/x");
    assert_eq!(r.headers[2], ("Content-Type".to_string(), "application/json".to_string()));
    match r.body {
        Body::Json(j) => assert_eq!(acli_rust::json::to_json_text(&j), "{\"a\":true}"),
        _ => panic!("expected a JSON body"),
    }
}

#[test]
fn jsm_requests_go_to_the_gateway_or_to_localhost() {
    let c = client();
    let r = c.request_jsm("cloud-1", "GET", "/alerts", None, None);
    assert_eq!(r.url, "https://api.atlassian.com/jsm/ops/api/cloud-1/v1/alerts");
    let local = Client::new(profile("http://127.0.0.1:8080", "a@b.c", "t"));
    let r = local.request_jsm("c", "GET", "/teams", None, None);
    assert_eq!(r.url, "http://127.0.0.1:8080/jsm/ops/api/c/v1/teams");
    let r = c.get_cloud_id();
    assert_eq!(r.url, "https://example.atlassian.net/_edge/tenant_info");
}

#[test]
fn multipart_upload_frames_the_file() {
    let c = client();
    let r = c.request_multipart("POST", "/rest/api/3/issue/A-1/attachments", "a.txt", b"hi");
    assert_eq!(r.url, "https://example.atlassian.net/rest/api/3/issue/A-1/attachments");
    assert_eq!(r.headers[1], ("X-Atlassian-Token".to_string(), "no-check".to_string()));
    assert_eq!(
        r.headers[3],
        ("Content-Type".to_string(), "multipart/form-data; boundary=acli-boundary-a1b2c3d4".to_string())
    );
    let expected = "--acli-boundary-a1b2c3d4\r\nContent-Disposition: form-data; name=\"file\"; filename=\"a.txt\"\r\nContent-Type: application/octet-stream\r\n\r\nhi\r\n--acli-boundary-a1b2c3d4--\r\n";
    match r.body {
        Body::Bytes(b) => assert_eq!(b, expected.as_bytes().to_vec()),
        _ => panic!("expected bytes"),
    }
}

#[test]
fn responses_map_to_results() {
    match response_result(200, "ok".to_string()) {
        Ok(b) => assert_eq!(b, "ok"),
        Err(_) => panic!("2xx is a success"),
    }
    match response_result(404, "nope".to_string()) {
        Ok(_) => panic!("404 is an error"),
        Err(e) => assert_eq!(e, "API error (HTTP 404): nope"),
    }
    match response_result(299, String::new()) {
        Ok(b) => assert_eq!(b, ""),
        Err(_) => panic!("299 is a success"),
    }
    assert_eq!(transport_failure("timeout"), "Network/HTTP request failed: timeout");
    assert_eq!(parse_failure("issue JSON", "eof", "{"), "Failed to parse issue JSON: eof. Response: {");
}

#[test]
fn cloud_id_is_read_from_tenant_info() {
    let t = JsonValue::Object(vec![("cloudId".to_string(), JsonValue::Str("abc".to_string()))]);
    assert_eq!(cloud_id_of(&t).unwrap(), "abc");
    let t = JsonValue::Object(vec![("cloudId".to_string(), JsonValue::Null)]);
    match cloud_id_of(&t) {
        Ok(_) => panic!("no cloud id"),
        Err(e) => assert_eq!(e, "cloudId not found in tenant_info response"),
    }
}

#[test]
fn base64_pads_only_at_the_end_and_decodes_back() {
    for (text, pads) in [("", 0), ("M", 2), ("Ma", 1), ("Man", 0), ("Mand", 2), ("é€", 1)] {
        let e = base64_encode(text);
        let p = e.chars().rev().take_while(|&c| c == '=').count();
        assert_eq!(p, pads);
        assert!(!e[..e.len() - p].contains('='));
        // decode with a plain table and compare with the UTF-8 bytes
        let table = "ABCDEFGHIJKLMNOPQRSTUVWXYZabcdefghijklmnopqrstuvwxyz0123456789+/";
        let vals: Vec<u32> = e.trim_end_matches('=').chars().map(|c| table.find(c).unwrap() as u32).collect();
        let mut bits = 0u32;
        let mut nbits = 0;
        let mut out = Vec::new();
        for v in vals {
            bits = (bits << 6) | v;
            nbits += 6;
            if nbits >= 8 {
                nbits -= 8;
                out.push(((bits >> nbits) & 0xff) as u8);
            }
        }
        assert_eq!(out, text.as_bytes().to_vec());
    }
}
