use crr_server::signed_url::{check_signature, signature, validate_signed_request};
use crr_server::CRRError;

const URL: &str = "https://example.com/db/notes/changes?crr-url-token-id=3&crr-url-expires=100";
const HASH: &str = "JFbKhZC63Dq5v7Dv6Lh+WgqBkUtntxPfvg+C6uEZmPk=";

#[test]
fn signature_is_base64_of_sha256() {
    assert_eq!(signature(URL, "secret-token"), HASH);
    assert_eq!(signature("", ""), "47DEQpj8HBSa+/TImW+5JCeuQeRkm5NMpJWZG3hSuFU=");
}

#[test]
fn signed_request_checks() {
    assert!(validate_signed_request(URL, "secret-token", HASH, 100, 100).is_ok());
    match validate_signed_request(URL, "other-token", HASH, 100, 50) {
        Err(CRRError::Unauthorized(m)) => assert_eq!(m, "Invalid Signed Request Hash"),
        other => panic!("expected a refusal, got {:?}", other),
    }
    match validate_signed_request(URL, "secret-token", HASH, 100, 101) {
        Err(CRRError::Unauthorized(m)) => assert_eq!(m, "Signed URL Expired"),
        other => panic!("expected a refusal, got {:?}", other),
    }
    assert!(check_signature("a", "a", 5, 5).is_ok());
    assert!(check_signature("a", "b", 5, 1).is_err());
}

#[test]
fn hash_is_left_out_of_the_signed_pairs() {
    let pairs = vec![
        ("a".to_owned(), "1".to_owned()),
        ("crr-url-hash".to_owned(), "xyz".to_owned()),
        ("crr-url-expires".to_owned(), "100".to_owned()),
    ];
    assert_eq!(
        crr_server::signed_url::without_hash(pairs),
        vec![
            ("a".to_owned(), "1".to_owned()),
            ("crr-url-expires".to_owned(), "100".to_owned())
        ]
    );
    assert!(crr_server::signed_url::without_hash(Vec::new()).is_empty());
}
