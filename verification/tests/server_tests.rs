use ruststack::runtime::{base64_decode, base64_encode, hex_encode, md5_digest, rfc2822_from_rfc3339, utf8_lossy};
use ruststack::server::{reset_plan, reset_response, reset_targets, Opts, ResetStateRequest, Service};

#[test]
fn server_default_options() {
    let o = Opts::default_opts();
    assert_eq!(o.port, 4566);
    assert_eq!(o.host, "0.0.0.0");
    assert_eq!(o.region, "us-east-1");
    assert_eq!(o.account_id, "000000000000");
    assert!(o.services.starts_with("s3,sqs,sns"));
    assert!(!o.persistence);
}

#[test]
fn server_reset_targets_default_to_all() {
    let all = reset_targets(&ResetStateRequest { services: None });
    assert_eq!(all.len(), 33);
    assert_eq!(all[0], "s3");
    assert_eq!(all[32], "organizations");
    let empty = reset_targets(&ResetStateRequest { services: Some(vec![]) });
    assert_eq!(empty.len(), 33);
    let some = reset_targets(&ResetStateRequest { services: Some(vec!["SQS".into(), "events".into()]) });
    assert_eq!(some, vec!["SQS".to_string(), "events".to_string()]);
    let plan = reset_plan(&vec!["SQS".to_string(), "events".to_string(), "bogus".to_string(), "Waf".to_string()]);
    assert_eq!(plan, vec![Service::Sqs, Service::EventBridge, Service::Wafv2]);
    assert_eq!(
        reset_response(&vec!["s3".to_string()]),
        "{\"message\":\"State reset successfully\",\"reset_services\":[\"s3\"],\"status\":\"ok\"}"
    );
}

#[test]
fn encoders_behave_like_their_crates() {
    assert_eq!(hex_encode(&md5_digest(b"abc")), "900150983cd24fb0d6963f7d28e17f72");
    assert_eq!(base64_encode(b"hello"), "aGVsbG8=");
    assert_eq!(base64_decode("aGVsbG8="), Some(b"hello".to_vec()));
    assert_eq!(base64_decode("###"), None);
    assert_eq!(utf8_lossy(&[104, 105, 255]), "hi\u{FFFD}");
    assert_eq!(
        rfc2822_from_rfc3339("2024-03-05T07:08:09+00:00"),
        Some("Tue, 5 Mar 2024 07:08:09 +0000".to_string())
    );
    assert_eq!(rfc2822_from_rfc3339("yesterday"), None);
}
