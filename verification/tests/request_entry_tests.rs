use ruststack::json::JsonValue;
use ruststack::secretsmanager::handlers::handle_secretsmanager_request;
use ruststack::secretsmanager::store::SecretsManagerEngine;
use ruststack::ses::handlers::{handle_ses_request, ses_request_params, SesJsonBody};
use ruststack::ses::state::SesState;
use ruststack::sns::handlers::handle_sns_request;
use ruststack::sns::topic::SnsEngine;
use ruststack::sqs::engine::SqsEngine;
use ruststack::sqs::handlers::handle_sqs_request;
use ruststack::ssm::handlers::handle_ssm_request;
use ruststack::ssm::store::SsmEngine;

fn obj(entries: Vec<(&str, JsonValue)>) -> JsonValue {
    JsonValue::Object(entries.into_iter().map(|(k, v)| (k.to_string(), v)).collect())
}

#[test]
fn sqs_request_json_and_query_protocols() {
    let mut e = SqsEngine::new("000000000000".to_string(), "us-east-1".to_string());
    let body = br#"{"QueueName":"q1"}"#;
    let parsed = Ok(obj(vec![("QueueName", JsonValue::Str("q1".to_string()))]));
    let r = handle_sqs_request(&mut e, Some("AmazonSQS.CreateQueue"), None, None, "/", body, parsed, "rid");
    assert_eq!(r.status, 200);
    assert!(r.body.contains("q1"));
    let r = handle_sqs_request(&mut e, None, None, Some("Action=ListQueues"), "/", b"", Err("no".to_string()), "rid");
    assert_eq!(r.status, 200);
    assert!(r.body.contains("<ListQueuesResponse"));
    assert!(r.body.contains("q1"));
}

#[test]
fn sqs_request_unreadable_json_is_bad_request() {
    let mut e = SqsEngine::new("000000000000".to_string(), "us-east-1".to_string());
    let r = handle_sqs_request(
        &mut e,
        Some("AmazonSQS.CreateQueue"),
        None,
        None,
        "/",
        b"{oops",
        Err("key must be a string".to_string()),
        "rid",
    );
    assert_eq!(r.status, 400);
    assert_eq!(r.body, "{\"__type\":\"BadRequest\",\"message\":\"key must be a string\"}");
}

#[test]
fn sqs_request_empty_json_body_is_empty_object() {
    let mut e = SqsEngine::new("000000000000".to_string(), "us-east-1".to_string());
    let r = handle_sqs_request(&mut e, Some("AmazonSQS.CreateQueue"), None, None, "/", b"", Err("eof".to_string()), "rid");
    assert_eq!(r.status, 400);
    assert!(r.body.contains("MissingParameter"));
}

#[test]
fn sns_request_unreadable_json_is_bad_request() {
    let mut sns = SnsEngine::new("000000000000".to_string(), "us-east-1".to_string());
    let mut sqs = SqsEngine::new("000000000000".to_string(), "us-east-1".to_string());
    let r = handle_sns_request(
        &mut sns,
        &mut sqs,
        Some("AmazonSNS.CreateTopic"),
        None,
        None,
        b"[",
        Err("EOF".to_string()),
        "rid",
    );
    assert_eq!(r.status, 400);
    assert_eq!(r.body, "{\"__type\":\"BadRequest\",\"message\":\"EOF\"}");
}

#[test]
fn ssm_and_secrets_requests_read_their_bodies() {
    let mut e = SsmEngine::new("000000000000".to_string(), "us-east-1".to_string());
    let put = obj(vec![
        ("Name", JsonValue::Str("/a".to_string())),
        ("Value", JsonValue::Str("v".to_string())),
        ("Type", JsonValue::Str("String".to_string())),
    ]);
    let r = handle_ssm_request(&mut e, Some("AmazonSSM.PutParameter"), b"{...}", Ok(put));
    assert_eq!(r.status, 200);
    let r = handle_ssm_request(&mut e, Some("AmazonSSM.GetParameter"), b"{", Err("bad".to_string()));
    assert_eq!(r.status, 400);
    assert!(r.body.contains("BadRequest"));
    let mut sm = SecretsManagerEngine::new("000000000000".to_string(), "us-east-1".to_string());
    let r = handle_secretsmanager_request(&mut sm, Some("secretsmanager.ListSecrets"), b"", Err("eof".to_string()));
    assert_eq!(r.status, 200);
    assert_eq!(r.body, "{\"SecretList\":[]}");
    let r = handle_secretsmanager_request(&mut sm, Some("secretsmanager.ListSecrets"), b"x", Err("bad".to_string()));
    assert_eq!(r.status, 400);
    assert!(r.body.contains("BadRequest"));
}

#[test]
fn ses_request_params_from_json_body() {
    let parsed = Ok(obj(vec![
        ("Action", JsonValue::Str("GetSendQuota".to_string())),
        ("Flag", JsonValue::Bool(true)),
        ("Count", JsonValue::UInt(7)),
        ("Neg", JsonValue::Int(-3)),
        ("Skip", JsonValue::Null),
    ]));
    let p = ses_request_params(Some("Extra=1"), b"{...}", &parsed);
    assert_eq!(p.get("Action").map(|s| s.as_str()), Some("GetSendQuota"));
    assert_eq!(p.get("Flag").map(|s| s.as_str()), Some("true"));
    assert_eq!(p.get("Count").map(|s| s.as_str()), Some("7"));
    assert_eq!(p.get("Neg").map(|s| s.as_str()), Some("-3"));
    assert_eq!(p.get("Skip"), None);
    assert_eq!(p.get("Extra").map(|s| s.as_str()), Some("1"));
    let p = ses_request_params(None, b"Action=ListIdentities&A=b", &Err("not json".to_string()));
    assert_eq!(p.get("Action").map(|s| s.as_str()), Some("ListIdentities"));
}

#[test]
fn ses_request_action_and_missing_action() {
    let mut st = SesState::new("000000000000", "us-east-1");
    let r = handle_ses_request(&mut st, None, None, None, b"", Err("eof".to_string()), SesJsonBody::Absent, "rid");
    assert_eq!(r.status, 400);
    assert!(r.body.contains("MissingAction"));
    let r = handle_ses_request(
        &mut st,
        None,
        None,
        Some("Action=VerifyEmailIdentity&EmailAddress=a%40b.com"),
        b"",
        Err("eof".to_string()),
        SesJsonBody::Absent,
        "rid",
    );
    assert_eq!(r.status, 200);
    let r = handle_ses_request(
        &mut st,
        Some("SimpleEmailService.ListIdentities"),
        None,
        None,
        b"",
        Err("eof".to_string()),
        SesJsonBody::Absent,
        "rid",
    );
    assert_eq!(r.status, 200);
    assert!(r.body.contains("a@b.com"));
}
