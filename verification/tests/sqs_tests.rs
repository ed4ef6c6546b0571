use ruststack::json::JsonValue;
use ruststack::sqs::engine::SqsEngine;
use ruststack::sqs::handlers::{handle_sqs_json, handle_sqs_query, long_poll_step, PollStep};
use ruststack::sqs::types::SendMessageBatchEntry;
use ruststack::table::Table;

fn engine() -> SqsEngine {
    SqsEngine::new("000000000000".to_string(), "us-east-1".to_string())
}

fn s(v: &str) -> JsonValue {
    JsonValue::Str(v.to_string())
}

fn obj(entries: Vec<(&str, JsonValue)>) -> JsonValue {
    JsonValue::Object(entries.into_iter().map(|(k, v)| (k.to_string(), v)).collect())
}

fn between<'a>(text: &'a str, open: &str, close: &str) -> &'a str {
    text.split(open).nth(1).unwrap().split(close).next().unwrap()
}

#[test]
fn test_sqs_query_protocol_lifecycle() {
    let mut e = engine();
    let r = handle_sqs_query(&mut e, None, "/", b"Action=CreateQueue&QueueName=test-query-queue", "r1");
    assert_eq!(r.status, 200);
    assert!(r.body.contains("<QueueUrl>http://localhost:4566/000000000000/test-query-queue</QueueUrl>"));
    let r = handle_sqs_query(
        &mut e,
        None,
        "/",
        b"Action=SendMessage&QueueUrl=http://localhost:4566/000000000000/test-query-queue&MessageBody=HelloFromRustStack",
        "r2",
    );
    assert_eq!(r.status, 200);
    assert!(r.body.contains("<MessageId>"));
    let r = handle_sqs_query(
        &mut e,
        None,
        "/",
        b"Action=ReceiveMessage&QueueUrl=http://localhost:4566/000000000000/test-query-queue&MaxNumberOfMessages=1",
        "r3",
    );
    assert_eq!(r.status, 200);
    assert!(r.body.contains("<Body>HelloFromRustStack</Body>"));
    let handle = between(&r.body, "<ReceiptHandle>", "</ReceiptHandle>").to_string();
    let del = format!(
        "Action=DeleteMessage&QueueUrl=http://localhost:4566/000000000000/test-query-queue&ReceiptHandle={}",
        handle
    );
    let r = handle_sqs_query(&mut e, None, "/", del.as_bytes(), "r4");
    assert_eq!(r.status, 200);
    let r = handle_sqs_query(
        &mut e,
        None,
        "/",
        b"Action=ReceiveMessage&QueueUrl=http://localhost:4566/000000000000/test-query-queue&MaxNumberOfMessages=1",
        "r5",
    );
    assert_eq!(r.status, 200);
    assert!(!r.body.contains("<Body>"));
}

#[test]
fn test_sqs_json_protocol_lifecycle() {
    let mut e = engine();
    let r = handle_sqs_json(&mut e, "AmazonSQS.CreateQueue", &obj(vec![("QueueName", s("json-queue"))]));
    assert_eq!(r.status, 200);
    assert!(r.body.contains("\"QueueUrl\""));
    let url = "http://localhost:4566/000000000000/json-queue";
    let attrs = obj(vec![("source", obj(vec![("DataType", s("String")), ("StringValue", s("rust-test"))]))]);
    let body = obj(vec![
        ("QueueUrl", s(url)),
        ("MessageBody", s("{\"user_id\": 42, \"action\": \"login\"}")),
        ("MessageAttributes", attrs),
    ]);
    let r = handle_sqs_json(&mut e, "AmazonSQS.SendMessage", &body);
    assert_eq!(r.status, 200);
    assert!(r.body.contains("\"MessageId\""));
    assert!(r.body.contains("\"MD5OfMessageBody\""));
    let recv = obj(vec![("QueueUrl", s(url)), ("MaxNumberOfMessages", JsonValue::UInt(10))]);
    let r = handle_sqs_json(&mut e, "AmazonSQS.ReceiveMessage", &recv);
    assert_eq!(r.status, 200);
    assert!(r.body.contains("\"Messages\""));
    assert!(r.body.contains("\"ReceiptHandle\""));
    let r = handle_sqs_json(&mut e, "AmazonSQS.Nope", &obj(vec![]));
    assert_eq!(r.status, 400);
}

#[test]
fn test_sqs_fifo_queue() {
    let mut e = engine();
    let mut attrs: Table<String> = Table::new();
    attrs.insert("FifoQueue".to_string(), "true".to_string());
    let url = e.create_queue("orders.fifo", Some(attrs)).unwrap();
    let first = e
        .send_message(&url, "order_100".to_string(), None, None, Some("group-1".to_string()), Some("dedup-order-100".to_string()))
        .unwrap();
    let second = e
        .send_message(&url, "order_100".to_string(), None, None, Some("group-1".to_string()), Some("dedup-order-100".to_string()))
        .unwrap();
    assert_eq!(first.1, second.1);
    let msgs = e.receive_message(&url, 10, None).unwrap();
    assert_eq!(msgs.len(), 1);
    assert_eq!(msgs[0].body, "order_100");
}

#[test]
fn sqs_sent_message_is_received_then_deleted() {
    let mut e = engine();
    let url = e.create_queue("plain", None).unwrap();
    assert_eq!(url, "http://localhost:4566/000000000000/plain");
    e.send_message(&url, "one".to_string(), None, None, None, None).unwrap();
    e.send_message(&url, "two".to_string(), None, None, None, None).unwrap();
    let got = e.receive_message(&url, 1, None).unwrap();
    assert_eq!(got.len(), 1);
    assert_eq!(got[0].body, "one");
    e.delete_message(&url, &got[0].receipt_handle).unwrap();
    let got = e.receive_message(&url, 10, None).unwrap();
    assert_eq!(got.len(), 1);
    assert_eq!(got[0].body, "two");
    e.purge_queue(&url).unwrap();
    assert_eq!(e.receive_message(&url, 10, Some(0)).unwrap().len(), 0);
}

#[test]
fn sqs_missing_queue_errors() {
    let mut e = engine();
    assert!(e.get_queue_url("nope").is_err());
    let r = handle_sqs_query(&mut e, None, "/", b"Action=GetQueueUrl&QueueName=nope", "rid");
    assert_eq!(r.status, 404);
    assert!(r.body.contains("<RequestId>rid</RequestId>"));
}

#[test]
fn sqs_md5_of_body() {
    assert_eq!(SqsEngine::calculate_md5("hello"), "5d41402abc4b2a76b9719d911017c592");
    assert_eq!(SqsEngine::calculate_md5(""), "d41d8cd98f00b204e9800998ecf8427e");
}

fn later_millis(offset: i64) -> i64 {
    let now = std::time::SystemTime::now().duration_since(std::time::UNIX_EPOCH).unwrap().as_millis() as i64;
    now + offset
}

#[test]
fn test_sqs_dead_letter_queue_redrive() {
    let mut e = engine();
    let r = handle_sqs_json(&mut e, "AmazonSQS.CreateQueue", &obj(vec![("QueueName", s("poison-dlq"))]));
    assert_eq!(r.status, 200);
    let dlq_url = "http://localhost:4566/000000000000/poison-dlq";
    let policy = "{\"deadLetterTargetArn\":\"arn:aws:sqs:us-east-1:000000000000:poison-dlq\",\"maxReceiveCount\":2}";
    let body = obj(vec![
        ("QueueName", s("source-work-queue")),
        ("Attributes", obj(vec![("VisibilityTimeout", s("1")), ("RedrivePolicy", s(policy))])),
    ]);
    let r = handle_sqs_json(&mut e, "AmazonSQS.CreateQueue", &body);
    assert_eq!(r.status, 200);
    let src_url = "http://localhost:4566/000000000000/source-work-queue";
    let r = handle_sqs_json(&mut e, "AmazonSQS.ListDeadLetterSourceQueues", &obj(vec![("QueueUrl", s(dlq_url))]));
    assert_eq!(r.status, 200);
    assert_eq!(r.body, format!("{{\"queueUrls\":[\"{}\"]}}", src_url));
    e.send_message(src_url, "poison_pill_payload".to_string(), None, None, None, None).unwrap();
    let t0 = later_millis(10_000);
    let got = e.receive_message_at(src_url, 1, Some(1), t0).unwrap();
    assert_eq!(got.len(), 1);
    let got = e.receive_message_at(src_url, 1, Some(1), t0 + 1_100).unwrap();
    assert_eq!(got.len(), 1);
    let got = e.receive_message_at(src_url, 1, None, t0 + 2_200).unwrap();
    assert_eq!(got.len(), 0);
    let got = e.receive_message_at(dlq_url, 1, None, t0 + 2_300).unwrap();
    assert_eq!(got.len(), 1);
    assert_eq!(got[0].body, "poison_pill_payload");
}

#[test]
fn sqs_list_dead_letter_sources_query_and_missing() {
    let mut e = engine();
    let r = handle_sqs_query(&mut e, Some("Action=CreateQueue&QueueName=d"), "/", b"", "rid");
    assert_eq!(r.status, 200);
    let r = handle_sqs_query(
        &mut e,
        Some("Action=ListDeadLetterSourceQueues&QueueUrl=http://localhost:4566/000000000000/d"),
        "/",
        b"",
        "rid",
    );
    assert_eq!(r.status, 200);
    assert!(r.body.contains("<ListDeadLetterSourceQueuesResponse"));
    assert!(!r.body.contains("<QueueUrl>"));
    let r = handle_sqs_json(&mut e, "AmazonSQS.ListDeadLetterSourceQueues", &obj(vec![("QueueUrl", s("nope"))]));
    assert_eq!(r.status, 404);
}

#[test]
fn sqs_long_poll_decision() {
    let mut e = engine();
    e.create_queue("lp", None).unwrap();
    let url = "http://localhost:4566/000000000000/lp";
    let r = handle_sqs_json(&mut e, "AmazonSQS.ReceiveMessage", &obj(vec![("QueueUrl", s(url))]));
    assert!(ruststack::sqs::handlers::receive_found_none(&r, true, "rid"));
    let r2 = handle_sqs_query(&mut e, Some("Action=ReceiveMessage&QueueUrl=http://localhost:4566/000000000000/lp"), "/", b"", "rid");
    assert!(ruststack::sqs::handlers::receive_found_none(&r2, false, "rid"));
    assert!(!ruststack::sqs::handlers::receive_found_none(&r2, false, "other"));
    e.send_message(url, "x".to_string(), None, None, None, None).unwrap();
    let r3 = handle_sqs_json(&mut e, "AmazonSQS.ReceiveMessage", &obj(vec![("QueueUrl", s(url))]));
    assert!(!ruststack::sqs::handlers::receive_found_none(&r3, true, "rid"));
}

#[test]
fn sqs_long_poll_step() {
    assert_eq!(long_poll_step(true, true, 0, 2), PollStep::WaitAndRetry);
    assert_eq!(long_poll_step(true, true, 1999, 2), PollStep::WaitAndRetry);
    assert_eq!(long_poll_step(true, true, 2000, 2), PollStep::Answer);
    assert_eq!(long_poll_step(true, false, 0, 2), PollStep::Answer);
    assert_eq!(long_poll_step(false, true, 0, 2), PollStep::Answer);
    assert_eq!(long_poll_step(true, true, 0, 0), PollStep::Answer);
}

#[test]
fn sqs_fifo_duplicate_returns_existing_message_id() {
    let mut e = engine();
    let mut attrs: Table<String> = Table::new();
    attrs.insert("FifoQueue".to_string(), "true".to_string());
    let url = e.create_queue("ids.fifo", Some(attrs)).unwrap();
    let first = e.send_message(&url, "a".to_string(), None, None, Some("g".to_string()), Some("d1".to_string())).unwrap();
    let second = e.send_message(&url, "b".to_string(), None, None, Some("g".to_string()), Some("d1".to_string())).unwrap();
    assert_eq!(first.0, second.0);
    let third = e.send_message(&url, "c".to_string(), None, None, Some("g".to_string()), Some("d2".to_string())).unwrap();
    assert_ne!(first.0, third.0);
    let msgs = e.receive_message(&url, 10, None).unwrap();
    assert_eq!(msgs.len(), 2);
    assert_eq!(msgs[0].message_id, first.0);
}

fn batch_entry(id: &str, body: &str, dedup: &str) -> SendMessageBatchEntry {
    SendMessageBatchEntry {
        id: id.to_string(),
        message_body: body.to_string(),
        delay_seconds: None,
        message_attributes: None,
        message_group_id: Some("g".to_string()),
        message_deduplication_id: Some(dedup.to_string()),
    }
}

#[test]
fn sqs_fifo_batch_duplicate_returns_existing_message_id() {
    let mut e = engine();
    let mut attrs: Table<String> = Table::new();
    attrs.insert("FifoQueue".to_string(), "true".to_string());
    let url = e.create_queue("batch.fifo", Some(attrs)).unwrap();
    let (ok, failed) = e
        .send_message_batch(&url, vec![batch_entry("1", "a", "d"), batch_entry("2", "b", "d"), batch_entry("3", "c", "e")])
        .unwrap();
    assert!(failed.is_empty());
    assert_eq!(ok.len(), 3);
    assert_eq!(ok[0].message_id, ok[1].message_id);
    assert_ne!(ok[0].message_id, ok[2].message_id);
    let msgs = e.receive_message(&url, 10, None).unwrap();
    assert_eq!(msgs.len(), 2);
}
