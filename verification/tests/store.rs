use ob_nordigen::state::AuthorizeReply;
use ob_nordigen::state::NordigenState;
use ob_nordigen::state::StoreError;

fn sample() -> NordigenState {
    NordigenState::new(
        "tok-abc".to_string(),
        "ref-xyz".to_string(),
        3600,
        86400,
        1_000_000,
    )
}

#[test]
fn new_sets_all_fields() {
    let st = sample();
    assert_eq!(st.token, "tok-abc");
    assert_eq!(st.token_expires, 3600);
    assert_eq!(st.refresh_token, "ref-xyz");
    assert_eq!(st.refresh_expires, 86400);
    assert_eq!(st.written_at, 1_000_000);
}

#[test]
fn from_authorize_sets_all_fields() {
    let st = NordigenState::from_authorize(
        AuthorizeReply {
            access: "a".to_string(),
            access_expires: 10,
            refresh: "r".to_string(),
            refresh_expires: 20,
        },
        77,
    );
    assert_eq!(st.token, "a");
    assert_eq!(st.token_expires, 10);
    assert_eq!(st.refresh_token, "r");
    assert_eq!(st.refresh_expires, 20);
    assert_eq!(st.written_at, 77);
}

#[test]
fn expiry_instants() {
    let st = sample();
    assert_eq!(st.token_expires_on(), 1_003_600);
    assert_eq!(st.refresh_expires_on(), 1_086_400);
}

#[test]
fn access_validity_boundary() {
    let st = sample();
    assert!(st.is_access_valid(1_003_599));
    assert!(!st.is_access_valid(1_003_600));
    assert!(!st.is_access_valid(1_003_601));
    assert!(!st.is_token_expired(1_003_599));
    assert!(st.is_token_expired(1_003_600));
}

#[test]
fn refresh_validity_boundary() {
    let st = sample();
    assert!(st.is_refresh_valid(1_086_399));
    assert!(!st.is_refresh_valid(1_086_400));
    assert!(!st.is_refresh_expired(1_086_399));
    assert!(st.is_refresh_expired(1_086_400));
}

#[test]
fn refresh_keeps_refresh_token_and_ttl() {
    let st = sample();
    let st2 = st.refreshed("tok-new".to_string(), 900, 2_000_000);
    assert_eq!(st2.refresh_token, "ref-xyz");
    assert_eq!(st2.refresh_expires, 86400);
    assert_eq!(st2.token, "tok-new");
    assert_eq!(st2.token_expires, 900);
    assert_eq!(st2.written_at, 2_000_000);
    // the original record is untouched
    assert_eq!(st.token, "tok-abc");
    assert_eq!(st.written_at, 1_000_000);
}

#[test]
fn refresh_shifts_apparent_refresh_expiry() {
    // The refreshed record measures the kept refresh ttl from the new
    // issuance instant, so the computed refresh expiry moves later.
    let st = sample();
    let st2 = st.refreshed("tok-new".to_string(), 900, 2_000_000);
    assert_eq!(st2.refresh_expires_on(), 2_086_400);
    assert!(st2.refresh_expires_on() > st.refresh_expires_on());
}

#[test]
fn serialized_form_is_exact() {
    let st = sample();
    let js = st.to_json().unwrap();
    assert_eq!(
        js,
        "{\"token\":\"tok-abc\",\"token_expires\":3600,\"refresh_token\":\"ref-xyz\",\"refresh_expires\":86400,\"written_at\":1000000}"
    );
}

#[test]
fn save_then_load_round_trips() {
    let st = sample();
    let js = st.to_json().unwrap();
    let st2 = NordigenState::parse(Some(&js)).unwrap();
    assert_eq!(st2.token, st.token);
    assert_eq!(st2.token_expires, st.token_expires);
    assert_eq!(st2.refresh_token, st.refresh_token);
    assert_eq!(st2.refresh_expires, st.refresh_expires);
    assert_eq!(st2.written_at, st.written_at);
}

#[test]
fn round_trip_extreme_values() {
    let st = NordigenState::new(String::new(), "r".to_string(), u32::MAX, 0, 999_999_999_999);
    let js = st.to_json().unwrap();
    let st2 = NordigenState::parse(Some(&js)).unwrap();
    assert_eq!(st2.token, "");
    assert_eq!(st2.token_expires, u32::MAX);
    assert_eq!(st2.refresh_token, "r");
    assert_eq!(st2.refresh_expires, 0);
    assert_eq!(st2.written_at, 999_999_999_999);
}

#[test]
fn load_missing_fails_not_found() {
    assert_eq!(NordigenState::parse(None).unwrap_err(), StoreError::NotFound);
}

#[test]
fn load_garbage_fails_parse_error() {
    let r = NordigenState::parse(Some("this is certainly { not a record"));
    assert_eq!(r.unwrap_err(), StoreError::ParseError);
}

#[test]
fn load_empty_fails_parse_error() {
    assert_eq!(
        NordigenState::parse(Some("")).unwrap_err(),
        StoreError::ParseError
    );
}

#[test]
fn load_truncated_fails_parse_error() {
    let js = sample().to_json().unwrap();
    let cut = &js[..js.len() - 1];
    assert_eq!(
        NordigenState::parse(Some(cut)).unwrap_err(),
        StoreError::ParseError
    );
}

#[test]
fn load_with_trailing_text_fails_parse_error() {
    let mut js = sample().to_json().unwrap();
    js.push_str(" ");
    assert_eq!(
        NordigenState::parse(Some(&js)).unwrap_err(),
        StoreError::ParseError
    );
}

#[test]
fn load_overflowing_ttl_fails_parse_error() {
    let js = "{\"token\":\"t\",\"token_expires\":4294967296,\"refresh_token\":\"r\",\"refresh_expires\":1,\"written_at\":5}";
    assert_eq!(
        NordigenState::parse(Some(js)).unwrap_err(),
        StoreError::ParseError
    );
}

#[test]
fn unsafe_token_cannot_be_serialized() {
    let st = NordigenState::new(
        "to\"k".to_string(),
        "r".to_string(),
        1,
        2,
        3,
    );
    assert_eq!(st.to_json().unwrap_err(), StoreError::Io);
    let st2 = NordigenState::new(
        "tok".to_string(),
        "r\\efresh".to_string(),
        1,
        2,
        3,
    );
    assert_eq!(st2.to_json().unwrap_err(), StoreError::Io);
}

#[test]
fn clock_based_checks_agree_with_reading() {
    let st = sample();
    let (expired, now) = st.is_token_expired_now();
    assert_eq!(expired, now >= st.token_expires_on());
    let (rexpired, rnow) = st.is_refresh_expired_now();
    assert_eq!(rexpired, rnow >= st.refresh_expires_on());
}
