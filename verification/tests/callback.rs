use ob_nordigen::callback::callback_ref;
use ob_nordigen::callback::callback_response;
use ob_nordigen::callback::parse_request;
use ob_nordigen::callback::CallbackError;

fn req(line: &str) -> Vec<String> {
    vec![line.to_string(), "Host: 127.0.0.1:1337".to_string()]
}

#[test]
fn ref_among_other_pairs() {
    let r = callback_ref(&req("GET /?a=1&ref=abc&b=2 HTTP/1.1"));
    assert_eq!(r.unwrap(), "abc");
}

#[test]
fn missing_ref_key_fails() {
    let r = callback_ref(&req("GET /?foo=bar HTTP/1.1"));
    assert_eq!(r.unwrap_err(), CallbackError::MissingRef);
}

#[test]
fn no_query_fails() {
    let r = callback_ref(&req("GET / HTTP/1.1"));
    assert_eq!(r.unwrap_err(), CallbackError::MissingQuery);
}

#[test]
fn post_method_fails() {
    let r = callback_ref(&req("POST /?ref=abc HTTP/1.1"));
    assert_eq!(r.unwrap_err(), CallbackError::UnsupportedMethod);
}

#[test]
fn malformed_pair_is_dropped() {
    let r = callback_ref(&req("GET /?x=y=z&ref=zzz HTTP/1.1"));
    assert_eq!(r.unwrap(), "zzz");
}

#[test]
fn keyless_fragment_is_dropped() {
    let r = callback_ref(&req("GET /?justtext&ref=ok HTTP/1.1"));
    assert_eq!(r.unwrap(), "ok");
}

#[test]
fn empty_request_fails_bad_request() {
    let r = callback_ref(&Vec::new());
    assert_eq!(r.unwrap_err(), CallbackError::BadRequest);
}

#[test]
fn short_request_line_fails_bad_request() {
    let r = callback_ref(&req("GET /?ref=a"));
    assert_eq!(r.unwrap_err(), CallbackError::BadRequest);
}

#[test]
fn method_case_is_ignored() {
    assert_eq!(callback_ref(&req("get /?ref=a HTTP/1.1")).unwrap(), "a");
    assert_eq!(callback_ref(&req("GeT /?ref=b HTTP/1.1")).unwrap(), "b");
}

#[test]
fn repeated_key_last_wins() {
    let r = callback_ref(&req("GET /?ref=first&ref=second HTTP/1.1"));
    assert_eq!(r.unwrap(), "second");
}

#[test]
fn empty_query_fails_missing_ref() {
    let r = callback_ref(&req("GET /? HTTP/1.1"));
    assert_eq!(r.unwrap_err(), CallbackError::MissingRef);
}

#[test]
fn empty_ref_value_is_returned() {
    let r = callback_ref(&req("GET /?ref= HTTP/1.1"));
    assert_eq!(r.unwrap(), "");
}

#[test]
fn parse_request_lists_pairs_in_order() {
    let pairs = parse_request(&req("GET /?a=1&b=2&c=3 HTTP/1.1")).unwrap();
    assert_eq!(
        pairs,
        vec![
            ("a".to_string(), "1".to_string()),
            ("b".to_string(), "2".to_string()),
            ("c".to_string(), "3".to_string()),
        ]
    );
}

#[test]
fn parse_request_drops_malformed_pairs() {
    let pairs = parse_request(&req("GET /?x=y=z&ok=1& HTTP/1.1")).unwrap();
    assert_eq!(pairs, vec![("ok".to_string(), "1".to_string())]);
}

#[test]
fn extra_request_tokens_are_tolerated() {
    let r = callback_ref(&req("GET /?ref=a HTTP/1.1 extra"));
    assert_eq!(r.unwrap(), "a");
}

#[test]
fn response_is_fixed_thank_you_page() {
    let resp = callback_response();
    assert!(resp.starts_with("HTTP/1.1 200 OK\r\n"));
    assert!(resp.contains("Content-Type: text/html; charset=UTF-8"));
    assert!(resp.contains("<h2>Thank You!</h2>"));
    assert!(resp.contains("<p>You can now go back to the tool :)</p>"));
    assert!(resp.ends_with("</html>\r\n"));
}
