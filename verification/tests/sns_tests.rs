use ruststack::json::JsonValue;
use ruststack::sns::handlers::{handle_sns_json, handle_sns_query};
use ruststack::sns::topic::{matches_filter_policy, SnsEngine};
use ruststack::sns::types::MessageAttributeValue;
use ruststack::sqs::engine::SqsEngine;
use ruststack::table::Table;

fn engines() -> (SnsEngine, SqsEngine) {
    (
        SnsEngine::new("000000000000".to_string(), "us-east-1".to_string()),
        SqsEngine::new("000000000000".to_string(), "us-east-1".to_string()),
    )
}

fn s(v: &str) -> JsonValue {
    JsonValue::Str(v.to_string())
}

fn obj(entries: Vec<(&str, JsonValue)>) -> JsonValue {
    JsonValue::Object(entries.into_iter().map(|(k, v)| (k.to_string(), v)).collect())
}

fn attr(v: &str) -> MessageAttributeValue {
    MessageAttributeValue { data_type: "String".to_string(), string_value: Some(v.to_string()), binary_value: None }
}

#[test]
fn test_sns_topic_lifecycle() {
    let (mut sns, mut sqs) = engines();
    let r = handle_sns_query(&mut sns, &mut sqs, None, b"Action=CreateTopic&Name=my-alerts", "r1");
    assert_eq!(r.status, 200);
    assert!(r.body.contains("<TopicArn>arn:aws:sns:us-east-1:000000000000:my-alerts</TopicArn>"));
    let r = handle_sns_query(&mut sns, &mut sqs, None, b"Action=ListTopics", "r2");
    assert_eq!(r.status, 200);
    assert!(r.body.contains("<TopicArn>arn:aws:sns:us-east-1:000000000000:my-alerts</TopicArn>"));
    let r = handle_sns_query(
        &mut sns,
        &mut sqs,
        None,
        b"Action=DeleteTopic&TopicArn=arn:aws:sns:us-east-1:000000000000:my-alerts",
        "r3",
    );
    assert_eq!(r.status, 200);
}

#[test]
fn test_sns_to_sqs_fanout_json() {
    let (mut sns, mut sqs) = engines();
    let queue_url = sqs.create_queue("subscriber-queue", None).unwrap();
    let r = handle_sns_json(&mut sns, &mut sqs, "AmazonSNS.CreateTopic", &obj(vec![("Name", s("events-topic"))]));
    assert_eq!(r.status, 200);
    let topic_arn = "arn:aws:sns:us-east-1:000000000000:events-topic";
    let sub = obj(vec![("TopicArn", s(topic_arn)), ("Protocol", s("sqs")), ("Endpoint", s(&queue_url))]);
    let r = handle_sns_json(&mut sns, &mut sqs, "AmazonSNS.Subscribe", &sub);
    assert_eq!(r.status, 200);
    let publish = obj(vec![
        ("TopicArn", s(topic_arn)),
        ("Message", s("{\"order_id\": 999, \"status\": \"shipped\"}")),
        ("Subject", s("Order Update")),
    ]);
    let r = handle_sns_json(&mut sns, &mut sqs, "AmazonSNS.Publish", &publish);
    assert_eq!(r.status, 200);
    let msgs = sqs.receive_message(&queue_url, 10, None).unwrap();
    assert_eq!(msgs.len(), 1);
    assert!(msgs[0].body.contains("\"Type\":\"Notification\""));
    assert!(msgs[0].body.contains("Order Update"));
}

#[test]
fn test_sns_raw_message_delivery_and_filter_policy() {
    let (mut sns, mut sqs) = engines();
    let q_eu = sqs.create_queue("queue-eu", None).unwrap();
    let q_us = sqs.create_queue("queue-us", None).unwrap();
    let topic_arn = sns.create_topic("regional-events", None).unwrap();
    let mut eu_attrs: Table<String> = Table::new();
    eu_attrs.insert("RawMessageDelivery".to_string(), "true".to_string());
    eu_attrs.insert("FilterPolicy".to_string(), r#"{"region": ["eu-central-1"]}"#.to_string());
    sns.subscribe(&topic_arn, "sqs", &q_eu, Some(eu_attrs)).unwrap();
    let mut us_attrs: Table<String> = Table::new();
    us_attrs.insert("RawMessageDelivery".to_string(), "true".to_string());
    us_attrs.insert("FilterPolicy".to_string(), r#"{"region": ["us-east-1"]}"#.to_string());
    sns.subscribe(&topic_arn, "sqs", &q_us, Some(us_attrs)).unwrap();
    let mut msg_attrs: Table<MessageAttributeValue> = Table::new();
    msg_attrs.insert("region".to_string(), attr("eu-central-1"));
    sns.publish(&mut sqs, &topic_arn, "EU_RAW_DATA".to_string(), None, Some(msg_attrs), None, None).unwrap();
    let eu = sqs.receive_message(&q_eu, 10, None).unwrap();
    assert_eq!(eu.len(), 1);
    assert_eq!(eu[0].body, "EU_RAW_DATA");
    let us = sqs.receive_message(&q_us, 10, None).unwrap();
    assert_eq!(us.len(), 0);
}

#[test]
fn sns_filter_policy_needs_attributes() {
    let mut a: Table<MessageAttributeValue> = Table::new();
    a.insert("color".to_string(), attr("red"));
    let some = Some(a);
    assert!(matches_filter_policy(r#"{"color": ["red", "blue"]}"#, &some));
    assert!(!matches_filter_policy(r#"{"color": ["green"]}"#, &some));
    assert!(!matches_filter_policy(r#"{"size": ["L"]}"#, &some));
    assert!(!matches_filter_policy(r#"{"color": ["red"]}"#, &None));
}

#[test]
fn sns_unknown_topic_is_an_error() {
    let (mut sns, mut sqs) = engines();
    let r = handle_sns_query(
        &mut sns,
        &mut sqs,
        None,
        b"Action=Publish&TopicArn=arn:aws:sns:us-east-1:000000000000:none&Message=x",
        "r",
    );
    assert!(r.status >= 400);
    assert!(sns.get_topic_attributes("arn:aws:sns:us-east-1:000000000000:none").is_err());
}
