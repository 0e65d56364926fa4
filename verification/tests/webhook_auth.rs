use base64::Engine;
use gamecall::call::{Call, CallStatus, Recording, TwilioError};
use gamecall::webhook::{
    get_args, parse_request, signature_matches, sorted_unique_params, str_le, str_lt,
};
use hmac::Mac;

#[test]
fn signature_matches_a_known_digest() {
    // Computed independently: HMAC-SHA1 of "https://example.com/starta3b2"
    // keyed with "secret_token_123".
    let expected: Vec<u8> = vec![
        22, 60, 108, 136, 196, 52, 38, 179, 43, 85, 250, 81, 202, 78, 132, 82, 143, 255, 79, 110,
    ];
    let sorted = vec![
        ("a".to_string(), "3".to_string()),
        ("b".to_string(), "2".to_string()),
    ];
    assert!(signature_matches(
        "secret_token_123",
        &expected,
        "example.com",
        "/start",
        true,
        &sorted,
    ));
    let mut tampered = expected.clone();
    tampered[0] ^= 1;
    assert!(!signature_matches(
        "secret_token_123",
        &tampered,
        "example.com",
        "/start",
        true,
        &sorted,
    ));
    assert!(!signature_matches(
        "other_token",
        &expected,
        "example.com",
        "/start",
        true,
        &sorted,
    ));
}

#[test]
fn posted_request_with_valid_signature_passes() {
    let args = parse_request(
        "secret_token_123",
        b"FjxsiMQ0JrMrVfpRyk6EUo//T24=",
        "example.com",
        "/start",
        true,
        b"b=2&a=1&a=3",
    )
    .unwrap();
    assert_eq!(
        args,
        vec![
            ("a".to_string(), "3".to_string()),
            ("b".to_string(), "2".to_string()),
        ]
    );
}

#[test]
fn read_request_with_valid_signature_passes() {
    let args = parse_request(
        "secret_token_123",
        b"JTXLcjbLh65v5Ek+blwVW68FoAU=",
        "example.com",
        "/health",
        false,
        b"",
    )
    .unwrap();
    assert!(args.is_empty());
}

#[test]
fn wrong_signature_is_an_auth_failure() {
    let r = parse_request(
        "secret_token_123",
        b"JTXLcjbLh65v5Ek+blwVW68FoAU=",
        "example.com",
        "/start",
        true,
        b"b=2&a=1&a=3",
    );
    assert!(matches!(r, Err(TwilioError::AuthError)));
}

#[test]
fn undecodable_signature_is_a_bad_request() {
    let r = parse_request(
        "secret_token_123",
        b"@@not-base64@@",
        "example.com",
        "/start",
        true,
        b"a=1",
    );
    assert!(matches!(r, Err(TwilioError::BadRequest)));
}

#[test]
fn percent_decoding_reaches_the_parameters() {
    // Sign the exact canonical text on the spot, with the same crates the
    // library relies on, so the request passes end to end.
    let body = b"%23first=%25try%25";
    let canonical = b"https://h/p#first%try%";
    let mut mac = <hmac::Hmac<sha1::Sha1> as hmac::KeyInit>::new_from_slice(b"tok").unwrap();
    mac.update(canonical);
    let digest = mac.finalize().into_bytes();
    let sig = base64::prelude::BASE64_STANDARD.encode(digest);
    let decoded = parse_request("tok", sig.as_bytes(), "h", "/p", true, body).unwrap();
    assert_eq!(decoded, vec![("#first".to_string(), "%try%".to_string())]);
}

#[test]
fn parameters_sort_and_later_duplicates_win() {
    let raw = vec![
        ("zeta".to_string(), "1".to_string()),
        ("alpha".to_string(), "old".to_string()),
        ("mid".to_string(), "m".to_string()),
        ("alpha".to_string(), "new".to_string()),
    ];
    let sorted = sorted_unique_params(&raw);
    assert_eq!(
        sorted,
        vec![
            ("alpha".to_string(), "new".to_string()),
            ("mid".to_string(), "m".to_string()),
            ("zeta".to_string(), "1".to_string()),
        ]
    );
}

#[test]
fn lexicographic_order_on_text() {
    assert!(str_le("abc", "abd"));
    assert!(str_le("ab", "abc"));
    assert!(str_le("abc", "abc"));
    assert!(!str_le("abd", "abc"));
    assert!(str_lt("ab", "abc"));
    assert!(!str_lt("abc", "abc"));
}

#[test]
fn call_event_decodes_from_parameters() {
    let params = vec![
        ("CallSid".to_string(), "CA77".to_string()),
        ("CallStatus".to_string(), "in-progress".to_string()),
        ("From".to_string(), "+15550001".to_string()),
        ("SpeechResult".to_string(), "hello host".to_string()),
        ("To".to_string(), "+15559999".to_string()),
    ];
    let call = Call::from_map(&params).unwrap();
    assert_eq!(call.from, "+15550001");
    assert_eq!(call.to, "+15559999");
    assert_eq!(call.sid, "CA77");
    assert_eq!(call.status, CallStatus::InProgress);
    assert_eq!(call.speech_result, Some("hello host".to_string()));
}

#[test]
fn call_event_without_sid_is_rejected() {
    let params = vec![
        ("CallStatus".to_string(), "queued".to_string()),
        ("From".to_string(), "+1".to_string()),
        ("To".to_string(), "+2".to_string()),
    ];
    assert!(matches!(Call::from_map(&params), Err(TwilioError::ParsingError)));
}

#[test]
fn call_event_with_unknown_status_is_rejected() {
    let params = vec![
        ("CallSid".to_string(), "CA1".to_string()),
        ("CallStatus".to_string(), "warming-up".to_string()),
        ("From".to_string(), "+1".to_string()),
        ("To".to_string(), "+2".to_string()),
    ];
    assert!(matches!(Call::from_map(&params), Err(TwilioError::ParsingError)));
}

#[test]
fn recording_event_decodes_from_parameters() {
    let params = vec![
        ("CallSid".to_string(), "CA77".to_string()),
        ("RecordingSid".to_string(), "RE55".to_string()),
    ];
    let rec = Recording::from_map(&params).unwrap();
    assert_eq!(rec.call_sid, "CA77");
    assert_eq!(rec.sid, "RE55");
    let missing = vec![("CallSid".to_string(), "CA77".to_string())];
    assert!(matches!(Recording::from_map(&missing), Err(TwilioError::ParsingError)));
}

#[test]
fn query_args_need_exactly_one_question_mark() {
    let one = get_args("/page?a=1&b=2");
    assert_eq!(
        one,
        vec![("a".to_string(), "1".to_string()), ("b".to_string(), "2".to_string())]
    );
    assert!(get_args("/page").is_empty());
    assert!(get_args("/page?a=1?b=2").is_empty());
}
