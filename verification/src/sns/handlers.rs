//! The notification service's two protocols: requests read from a JSON body
//! or from query parameters, carried out on the service (and on the queues it
//! delivers to), and answered in JSON or XML.
use vstd::prelude::*;
use crate::http::{json_str, reply, Reply, JSON_TYPE, XML_TYPE};
use crate::json::{body_reads_as, body_unreadable, json_request_body, get_str, json_as_str, json_get, JsonValue};
use crate::ses::state::opt_text;
use crate::sns::codec::{
    json_arn_answer, json_arn_response, json_attributes_response, json_list_subscriptions_response,
    json_list_topics_response, json_publish_answer, json_publish_batch_answer, json_publish_batch_response,
    json_publish_response, json_subscriptions_answer, json_topics_answer, xml_arn_answer, xml_arn_response,
    xml_attrs_answer, xml_attrs_response, xml_list_subscriptions_response, xml_list_topics_response,
    xml_plain_answer, xml_plain_response, xml_publish_answer, xml_publish_response, xml_subscriptions_answer,
    xml_topics_answer,
};
use crate::sns::topic::{
    attr_view, batch_published, count_for, no_subscription, no_topic, opt_texts, published, subs_for,
    subscribed, subscription_attribute_map, subscription_attribute_set, texts, topic_attribute_map,
    topic_attribute_set, topic_created, topic_deleted, unsubscribed, SnsEngine, SnsError, SnsErrorKind,
};
use crate::sns::types::{BatchErrorEntry, MessageAttributeValue, PublishBatchEntry, PublishBatchResultEntry, Subscription};
use crate::sqs::codec::json_object;
use crate::sqs::engine::SqsEngine;
use crate::sqs::handlers::{
    get_param, json_items, json_texts, param, str_or_empty, str_view, text_or_empty, text_table,
};
use crate::sqs::types::AttrView;
use crate::table::{lemma_map_values_insert, Table};
use crate::text::{append, copy_str, str_eq, strip_prefix, views};

verus! {

/// The actions of the notification service.
#[derive(Debug, Clone, Copy, PartialEq, Eq)]
pub enum SnsAction {
    CreateTopic,
    DeleteTopic,
    ListTopics,
    GetTopicAttributes,
    SetTopicAttributes,
    Subscribe,
    Unsubscribe,
    ListSubscriptions,
    ListSubscriptionsByTopic,
    GetSubscriptionAttributes,
    SetSubscriptionAttributes,
    Publish,
    PublishBatch,
    Unknown,
}

/// The action an action name stands for.
pub open spec fn sns_action_of(a: Seq<char>) -> SnsAction {
    if a == "CreateTopic"@ {
        SnsAction::CreateTopic
    } else if a == "DeleteTopic"@ {
        SnsAction::DeleteTopic
    } else if a == "ListTopics"@ {
        SnsAction::ListTopics
    } else if a == "GetTopicAttributes"@ {
        SnsAction::GetTopicAttributes
    } else if a == "SetTopicAttributes"@ {
        SnsAction::SetTopicAttributes
    } else if a == "Subscribe"@ {
        SnsAction::Subscribe
    } else if a == "Unsubscribe"@ {
        SnsAction::Unsubscribe
    } else if a == "ListSubscriptions"@ {
        SnsAction::ListSubscriptions
    } else if a == "ListSubscriptionsByTopic"@ {
        SnsAction::ListSubscriptionsByTopic
    } else if a == "GetSubscriptionAttributes"@ {
        SnsAction::GetSubscriptionAttributes
    } else if a == "SetSubscriptionAttributes"@ {
        SnsAction::SetSubscriptionAttributes
    } else if a == "Publish"@ {
        SnsAction::Publish
    } else if a == "PublishBatch"@ {
        SnsAction::PublishBatch
    } else {
        SnsAction::Unknown
    }
}

/// The action an action name stands for.
pub fn parse_sns_action(a: &str) -> (r: SnsAction)
    ensures
        r == sns_action_of(a@),
{
    if str_eq(a, "CreateTopic") {
        SnsAction::CreateTopic
    } else if str_eq(a, "DeleteTopic") {
        SnsAction::DeleteTopic
    } else if str_eq(a, "ListTopics") {
        SnsAction::ListTopics
    } else if str_eq(a, "GetTopicAttributes") {
        SnsAction::GetTopicAttributes
    } else if str_eq(a, "SetTopicAttributes") {
        SnsAction::SetTopicAttributes
    } else if str_eq(a, "Subscribe") {
        SnsAction::Subscribe
    } else if str_eq(a, "Unsubscribe") {
        SnsAction::Unsubscribe
    } else if str_eq(a, "ListSubscriptions") {
        SnsAction::ListSubscriptions
    } else if str_eq(a, "ListSubscriptionsByTopic") {
        SnsAction::ListSubscriptionsByTopic
    } else if str_eq(a, "GetSubscriptionAttributes") {
        SnsAction::GetSubscriptionAttributes
    } else if str_eq(a, "SetSubscriptionAttributes") {
        SnsAction::SetSubscriptionAttributes
    } else if str_eq(a, "Publish") {
        SnsAction::Publish
    } else if str_eq(a, "PublishBatch") {
        SnsAction::PublishBatch
    } else {
        SnsAction::Unknown
    }
}

/// A request to the notification service, read from either protocol.
pub enum SnsRequest {
    CreateTopic { name: String, attributes: Option<Table<String>> },
    DeleteTopic { topic_arn: String },
    ListTopics,
    GetTopicAttributes { topic_arn: String },
    SetTopicAttributes { topic_arn: String, name: String, value: String },
    Subscribe { topic_arn: String, protocol: String, endpoint: String, attributes: Option<Table<String>> },
    Unsubscribe { subscription_arn: String },
    ListSubscriptions,
    ListSubscriptionsByTopic { topic_arn: String },
    GetSubscriptionAttributes { subscription_arn: String },
    SetSubscriptionAttributes { subscription_arn: String, name: String, value: String },
    Publish {
        topic_arn: String,
        message: String,
        subject: Option<String>,
        attributes: Option<Table<MessageAttributeValue>>,
        deduplication_id: Option<String>,
        group_id: Option<String>,
    },
    PublishBatch { topic_arn: String, entries: Vec<PublishBatchEntry> },
}

impl SnsRequest {
    /// The tables in the request are well formed.
    pub open spec fn wf(&self) -> bool {
        match self {
            SnsRequest::CreateTopic { attributes, .. } => attributes matches Some(t) ==> t.wf(),
            SnsRequest::Subscribe { attributes, .. } => attributes matches Some(t) ==> t.wf(),
            SnsRequest::Publish { attributes, .. } => attributes matches Some(t) ==> t.wf(),
            SnsRequest::PublishBatch { entries, .. } => forall|i: int|
                0 <= i < entries@.len() ==> (#[trigger] entries@[i]).message_attributes is None,
            _ => true,
        }
    }
}

/// The error for a missing parameter.
pub open spec fn missing_param(e: SnsError, name: Seq<char>) -> bool {
    e.kind == SnsErrorKind::InvalidParameter && e.message@ == "The request must contain the parameter "@ + name
        + "."@
}

fn missing(name: &str) -> (e: SnsError)
    ensures
        missing_param(e, name@),
{
    let mut m = String::new();
    append(&mut m, "The request must contain the parameter ");
    append(&mut m, name);
    append(&mut m, ".");
    SnsError { kind: SnsErrorKind::InvalidParameter, message: m }
}

fn required(v: &JsonValue, key: &str) -> (r: Result<String, SnsError>)
    ensures
        match json_as_str(json_get(*v, key@)) {
            Some(s) => r matches Ok(t) && t@ == s,
            None => r matches Err(e) && missing_param(e, key@),
        },
{
    match get_str(v, key) {
        Some(s) => Ok(s),
        None => Err(missing(key)),
    }
}

/// The message attributes of a JSON object: every member, its `DataType`
/// defaulting to `String`, in order, a later one winning.
pub open spec fn sns_attr_members(entries: Seq<(String, JsonValue)>) -> Map<Seq<char>, AttrView>
    decreases entries.len(),
{
    if entries.len() == 0 {
        Map::empty()
    } else {
        let v = entries.last().1;
        sns_attr_members(entries.drop_last()).insert(
            entries.last().0@,
            AttrView {
                data_type: match json_as_str(json_get(v, "DataType"@)) {
                    Some(d) => d,
                    None => "String"@,
                },
                string_value: json_as_str(json_get(v, "StringValue"@)),
                binary_value: json_as_str(json_get(v, "BinaryValue"@)),
            },
        )
    }
}

/// The message attributes of an optional JSON object.
pub open spec fn sns_json_attrs(v: Option<JsonValue>) -> Map<Seq<char>, AttrView> {
    match v {
        Some(JsonValue::Object(entries)) => sns_attr_members(entries@),
        _ => Map::empty(),
    }
}

/// The message attributes of a JSON publish request, or none when there are
/// none.
fn publish_attrs(b: &JsonValue) -> (r: Option<Table<MessageAttributeValue>>)
    ensures
        sns_json_attrs(json_get(*b, "MessageAttributes"@)).len() == 0 ==> r is None,
        sns_json_attrs(json_get(*b, "MessageAttributes"@)).len() > 0 ==> (r matches Some(t) && t.wf()
            && t@.map_values(|a: MessageAttributeValue| attr_view(a)) == sns_json_attrs(
            json_get(*b, "MessageAttributes"@),
        )),
{
    let mut t: Table<MessageAttributeValue> = Table::new();
    assert(t@.map_values(|a: MessageAttributeValue| attr_view(a)) =~= Map::<Seq<char>, AttrView>::empty());
    match b.get("MessageAttributes") {
        Some(JsonValue::Object(entries)) => {
            let mut i: usize = 0;
            assert(entries@.take(0) =~= Seq::<(String, JsonValue)>::empty());
            while i < entries.len()
                invariant
                    t.wf(),
                    i <= entries@.len(),
                    t@.map_values(|a: MessageAttributeValue| attr_view(a)) == sns_attr_members(entries@.take(i as int)),
                decreases entries@.len() - i,
            {
                proof {
                    assert(entries@.take(i + 1).drop_last() =~= entries@.take(i as int));
                    assert(entries@.take(i + 1).last() == entries@[i as int]);
                }
                let item = &entries[i].1;
                let dt = match get_str(item, "DataType") {
                    Some(d) => d,
                    None => copy_str("String"),
                };
                let a = MessageAttributeValue {
                    data_type: dt,
                    string_value: get_str(item, "StringValue"),
                    binary_value: get_str(item, "BinaryValue"),
                };
                let ghost before = t@;
                let ghost av = a;
                t.insert(entries[i].0.clone(), a);
                proof {
                    lemma_map_values_insert(before, entries@[i as int].0@, av, |a: MessageAttributeValue| attr_view(a));
                }
                i = i + 1;
            }
            assert(entries@.take(entries@.len() as int) =~= entries@);
        },
        _ => {},
    }
    proof {
        t.lemma_wf();
        assert(t@.map_values(|a: MessageAttributeValue| attr_view(a)).dom() =~= t@.dom());
    }
    if t.len() == 0 {
        None
    } else {
        Some(t)
    }
}

/// `e` is the batch entry read from JSON item `item`.
pub open spec fn publish_entry_of(e: PublishBatchEntry, item: JsonValue) -> bool {
    &&& e.id@ == text_or_empty(item, "Id"@)
    &&& e.message@ == text_or_empty(item, "Message"@)
    &&& opt_text(e.subject) == json_as_str(json_get(item, "Subject"@))
    &&& e.message_attributes is None
    &&& e.message_deduplication_id is None
    &&& e.message_group_id is None
}

fn publish_entries(v: &JsonValue) -> (r: Vec<PublishBatchEntry>)
    ensures
        r@.len() == json_items(json_get(*v, "PublishBatchRequestEntries"@)).len(),
        forall|i: int|
            0 <= i < r@.len() ==> publish_entry_of(
                #[trigger] r@[i],
                json_items(json_get(*v, "PublishBatchRequestEntries"@))[i],
            ),
{
    let mut r: Vec<PublishBatchEntry> = Vec::new();
    match v.get("PublishBatchRequestEntries") {
        Some(JsonValue::Array(items)) => {
            let mut i: usize = 0;
            while i < items.len()
                invariant
                    json_items(json_get(*v, "PublishBatchRequestEntries"@)) == items@,
                    i <= items@.len(),
                    r@.len() == i,
                    forall|j: int| 0 <= j < i ==> publish_entry_of(#[trigger] r@[j], items@[j]),
                decreases items@.len() - i,
            {
                let item = &items[i];
                r.push(
                    PublishBatchEntry {
                        id: str_or_empty(item, "Id"),
                        message: str_or_empty(item, "Message"),
                        subject: get_str(item, "Subject"),
                        message_attributes: None,
                        message_deduplication_id: None,
                        message_group_id: None,
                    },
                );
                i = i + 1;
            }
        },
        _ => {},
    }
    r
}

/// A string member, or `dflt`.
pub open spec fn text_or(v: JsonValue, key: Seq<char>, dflt: Seq<char>) -> Seq<char> {
    match json_as_str(json_get(v, key)) {
        Some(s) => s,
        None => dflt,
    }
}

fn str_or(v: &JsonValue, key: &str, dflt: &str) -> (r: String)
    ensures
        r@ == text_or(*v, key@, dflt@),
{
    match get_str(v, key) {
        Some(s) => s,
        None => copy_str(dflt),
    }
}

/// `r` is the request that JSON body `b` makes for action `act`.
pub open spec fn json_request(act: SnsAction, b: JsonValue, r: Result<SnsRequest, SnsError>) -> bool {
    let topic = json_as_str(json_get(b, "TopicArn"@));
    let sub = json_as_str(json_get(b, "SubscriptionArn"@));
    match act {
        SnsAction::CreateTopic => match json_as_str(json_get(b, "Name"@)) {
            None => r matches Err(e) && missing_param(e, "Name"@),
            Some(n) => r matches Ok(SnsRequest::CreateTopic { name, attributes }) && name@ == n && (attributes matches Some(
                t,
            ) && t.wf() && texts(t) == json_texts(json_get(b, "Attributes"@))),
        },
        SnsAction::ListTopics => r matches Ok(SnsRequest::ListTopics),
        SnsAction::ListSubscriptions => r matches Ok(SnsRequest::ListSubscriptions),
        SnsAction::DeleteTopic | SnsAction::GetTopicAttributes | SnsAction::SetTopicAttributes | SnsAction::Subscribe
        | SnsAction::ListSubscriptionsByTopic | SnsAction::PublishBatch => match topic {
            None => r matches Err(e) && missing_param(e, "TopicArn"@),
            Some(t) => match act {
                SnsAction::DeleteTopic => r matches Ok(SnsRequest::DeleteTopic { topic_arn }) && topic_arn@ == t,
                SnsAction::GetTopicAttributes => r matches Ok(SnsRequest::GetTopicAttributes { topic_arn })
                    && topic_arn@ == t,
                SnsAction::SetTopicAttributes => r matches Ok(SnsRequest::SetTopicAttributes { topic_arn, name, value })
                    && topic_arn@ == t && name@ == text_or(b, "AttributeName"@, ""@) && value@ == text_or(
                    b,
                    "AttributeValue"@,
                    ""@,
                ),
                SnsAction::Subscribe => r matches Ok(SnsRequest::Subscribe { topic_arn, protocol, endpoint, attributes })
                    && topic_arn@ == t && protocol@ == text_or(b, "Protocol"@, "sqs"@) && endpoint@ == text_or(
                    b,
                    "Endpoint"@,
                    ""@,
                ) && (attributes matches Some(a) && a.wf() && texts(a) == json_texts(json_get(b, "Attributes"@))),
                SnsAction::ListSubscriptionsByTopic => r matches Ok(SnsRequest::ListSubscriptionsByTopic { topic_arn })
                    && topic_arn@ == t,
                _ => r matches Ok(SnsRequest::PublishBatch { topic_arn, entries }) && topic_arn@ == t && entries@.len()
                    == json_items(json_get(b, "PublishBatchRequestEntries"@)).len() && forall|i: int|
                    0 <= i < entries@.len() ==> publish_entry_of(
                        #[trigger] entries@[i],
                        json_items(json_get(b, "PublishBatchRequestEntries"@))[i],
                    ),
            },
        },
        SnsAction::Unsubscribe | SnsAction::GetSubscriptionAttributes | SnsAction::SetSubscriptionAttributes => match sub {
            None => r matches Err(e) && missing_param(e, "SubscriptionArn"@),
            Some(s) => match act {
                SnsAction::Unsubscribe => r matches Ok(SnsRequest::Unsubscribe { subscription_arn })
                    && subscription_arn@ == s,
                SnsAction::GetSubscriptionAttributes => r matches Ok(
                    SnsRequest::GetSubscriptionAttributes { subscription_arn },
                ) && subscription_arn@ == s,
                _ => r matches Ok(SnsRequest::SetSubscriptionAttributes { subscription_arn, name, value })
                    && subscription_arn@ == s && name@ == text_or(b, "AttributeName"@, ""@) && value@ == text_or(
                    b,
                    "AttributeValue"@,
                    ""@,
                ),
            },
        },
        SnsAction::Publish => {
            let target = match topic {
                Some(t) => Some(t),
                None => json_as_str(json_get(b, "TargetArn"@)),
            };
            match target {
                None => r matches Err(e) && missing_param(e, "TopicArn"@),
                Some(t) => match json_as_str(json_get(b, "Message"@)) {
                    None => r matches Err(e) && missing_param(e, "Message"@),
                    Some(m) => r matches Ok(
                        SnsRequest::Publish { topic_arn, message, subject, attributes, deduplication_id, group_id },
                    ) && topic_arn@ == t && message@ == m && opt_text(subject) == json_as_str(json_get(b, "Subject"@))
                        && opt_text(deduplication_id) == json_as_str(json_get(b, "MessageDeduplicationId"@))
                        && opt_text(group_id) == json_as_str(json_get(b, "MessageGroupId"@)) && (if sns_json_attrs(
                        json_get(b, "MessageAttributes"@),
                    ).len() == 0 {
                        attributes is None
                    } else {
                        attributes matches Some(a) && a.wf() && a@.map_values(|x: MessageAttributeValue| attr_view(x))
                            == sns_json_attrs(json_get(b, "MessageAttributes"@))
                    }),
                },
            }
        },
        SnsAction::Unknown => false,
    }
}

/// Reads the request that a JSON body makes for a known action.
#[verifier::rlimit(80)]
pub fn parse_sns_json(act: SnsAction, b: &JsonValue) -> (r: Result<SnsRequest, SnsError>)
    requires
        act != SnsAction::Unknown,
    ensures
        json_request(act, *b, r),
        r matches Ok(q) ==> q.wf(),
{
    proof {
        reveal_strlit("");
        reveal_strlit("sqs");
    }
    match act {
        SnsAction::CreateTopic => {
            let name = required(b, "Name")?;
            Ok(SnsRequest::CreateTopic { name, attributes: Some(text_table(b, "Attributes")) })
        },
        SnsAction::ListTopics => Ok(SnsRequest::ListTopics),
        SnsAction::ListSubscriptions => Ok(SnsRequest::ListSubscriptions),
        SnsAction::Unsubscribe => {
            let subscription_arn = required(b, "SubscriptionArn")?;
            Ok(SnsRequest::Unsubscribe { subscription_arn })
        },
        SnsAction::GetSubscriptionAttributes => {
            let subscription_arn = required(b, "SubscriptionArn")?;
            Ok(SnsRequest::GetSubscriptionAttributes { subscription_arn })
        },
        SnsAction::SetSubscriptionAttributes => {
            let subscription_arn = required(b, "SubscriptionArn")?;
            Ok(
                SnsRequest::SetSubscriptionAttributes {
                    subscription_arn,
                    name: str_or(b, "AttributeName", ""),
                    value: str_or(b, "AttributeValue", ""),
                },
            )
        },
        SnsAction::Publish => {
            let topic_arn = match get_str(b, "TopicArn") {
                Some(t) => t,
                None => match get_str(b, "TargetArn") {
                    Some(t) => t,
                    None => {
                        return Err(missing("TopicArn"));
                    },
                },
            };
            let message = required(b, "Message")?;
            Ok(
                SnsRequest::Publish {
                    topic_arn,
                    message,
                    subject: get_str(b, "Subject"),
                    attributes: publish_attrs(b),
                    deduplication_id: get_str(b, "MessageDeduplicationId"),
                    group_id: get_str(b, "MessageGroupId"),
                },
            )
        },
        _ => {
            let topic_arn = required(b, "TopicArn")?;
            match act {
                SnsAction::DeleteTopic => Ok(SnsRequest::DeleteTopic { topic_arn }),
                SnsAction::GetTopicAttributes => Ok(SnsRequest::GetTopicAttributes { topic_arn }),
                SnsAction::SetTopicAttributes => Ok(
                    SnsRequest::SetTopicAttributes {
                        topic_arn,
                        name: str_or(b, "AttributeName", ""),
                        value: str_or(b, "AttributeValue", ""),
                    },
                ),
                SnsAction::Subscribe => Ok(
                    SnsRequest::Subscribe {
                        topic_arn,
                        protocol: str_or(b, "Protocol", "sqs"),
                        endpoint: str_or(b, "Endpoint", ""),
                        attributes: Some(text_table(b, "Attributes")),
                    },
                ),
                SnsAction::ListSubscriptionsByTopic => Ok(SnsRequest::ListSubscriptionsByTopic { topic_arn }),
                _ => Ok(SnsRequest::PublishBatch { topic_arn, entries: publish_entries(b) }),
            }
        },
    }
}


/// A parameter, or `dflt`.
pub open spec fn param_or(p: Map<Seq<char>, Seq<char>>, k: Seq<char>, dflt: Seq<char>) -> Seq<char> {
    if p.contains_key(k) {
        p[k]
    } else {
        dflt
    }
}

fn param_or_exec(p: &Table<String>, k: &str, dflt: &str) -> (r: String)
    requires
        p.wf(),
    ensures
        r@ == param_or(texts(*p), k@, dflt@),
{
    match p.get(k) {
        Some(v) => v.clone(),
        None => copy_str(dflt),
    }
}

fn required_param(p: &Table<String>, k: &str) -> (r: Result<String, SnsError>)
    requires
        p.wf(),
    ensures
        match param(texts(*p), k@) {
            Some(v) => r matches Ok(s) && s@ == v,
            None => r matches Err(e) && missing_param(e, k@),
        },
{
    match p.get(k) {
        Some(v) => Ok(v.clone()),
        None => Err(missing(k)),
    }
}

/// The error for an action the endpoint does not serve.
pub open spec fn invalid_action(e: SnsError, action: Seq<char>) -> bool {
    e.kind == SnsErrorKind::InvalidAction && e.message@ == "The action "@ + action + " is not valid for this endpoint."@
}

fn invalid(action: &str) -> (e: SnsError)
    ensures
        invalid_action(e, action@),
{
    let mut m = String::new();
    append(&mut m, "The action ");
    append(&mut m, action);
    append(&mut m, " is not valid for this endpoint.");
    SnsError { kind: SnsErrorKind::InvalidAction, message: m }
}

/// The action a query request names.
pub open spec fn query_action_text(p: Map<Seq<char>, Seq<char>>) -> Seq<char> {
    param_or(p, "Action"@, Seq::empty())
}

/// `r` is the request that query parameters `p` make.
pub open spec fn query_request(p: Map<Seq<char>, Seq<char>>, r: Result<SnsRequest, SnsError>) -> bool {
    let action = query_action_text(p);
    let topic = param(p, "TopicArn"@);
    let sub = param(p, "SubscriptionArn"@);
    match sns_action_of(action) {
        SnsAction::CreateTopic => match param(p, "Name"@) {
            None => r matches Err(e) && missing_param(e, "Name"@),
            Some(n) => r matches Ok(SnsRequest::CreateTopic { name, attributes }) && name@ == n && attributes is None,
        },
        SnsAction::ListTopics => r matches Ok(SnsRequest::ListTopics),
        SnsAction::ListSubscriptions => r matches Ok(SnsRequest::ListSubscriptions),
        SnsAction::DeleteTopic | SnsAction::GetTopicAttributes | SnsAction::SetTopicAttributes | SnsAction::Subscribe
        | SnsAction::ListSubscriptionsByTopic => match topic {
            None => r matches Err(e) && missing_param(e, "TopicArn"@),
            Some(t) => match sns_action_of(action) {
                SnsAction::DeleteTopic => r matches Ok(SnsRequest::DeleteTopic { topic_arn }) && topic_arn@ == t,
                SnsAction::GetTopicAttributes => r matches Ok(SnsRequest::GetTopicAttributes { topic_arn })
                    && topic_arn@ == t,
                SnsAction::SetTopicAttributes => r matches Ok(SnsRequest::SetTopicAttributes { topic_arn, name, value })
                    && topic_arn@ == t && name@ == param_or(p, "AttributeName"@, ""@) && value@ == param_or(
                    p,
                    "AttributeValue"@,
                    ""@,
                ),
                SnsAction::Subscribe => r matches Ok(SnsRequest::Subscribe { topic_arn, protocol, endpoint, attributes })
                    && topic_arn@ == t && protocol@ == param_or(p, "Protocol"@, "sqs"@) && endpoint@ == param_or(
                    p,
                    "Endpoint"@,
                    ""@,
                ) && attributes is None,
                _ => r matches Ok(SnsRequest::ListSubscriptionsByTopic { topic_arn }) && topic_arn@ == t,
            },
        },
        SnsAction::Unsubscribe | SnsAction::GetSubscriptionAttributes | SnsAction::SetSubscriptionAttributes => match sub {
            None => r matches Err(e) && missing_param(e, "SubscriptionArn"@),
            Some(s) => match sns_action_of(action) {
                SnsAction::Unsubscribe => r matches Ok(SnsRequest::Unsubscribe { subscription_arn })
                    && subscription_arn@ == s,
                SnsAction::GetSubscriptionAttributes => r matches Ok(
                    SnsRequest::GetSubscriptionAttributes { subscription_arn },
                ) && subscription_arn@ == s,
                _ => r matches Ok(SnsRequest::SetSubscriptionAttributes { subscription_arn, name, value })
                    && subscription_arn@ == s && name@ == param_or(p, "AttributeName"@, ""@) && value@ == param_or(
                    p,
                    "AttributeValue"@,
                    ""@,
                ),
            },
        },
        SnsAction::Publish => {
            let target = match topic {
                Some(t) => Some(t),
                None => param(p, "TargetArn"@),
            };
            match target {
                None => r matches Err(e) && missing_param(e, "TopicArn"@),
                Some(t) => match param(p, "Message"@) {
                    None => r matches Err(e) && missing_param(e, "Message"@),
                    Some(m) => r matches Ok(
                        SnsRequest::Publish { topic_arn, message, subject, attributes, deduplication_id, group_id },
                    ) && topic_arn@ == t && message@ == m && opt_text(subject) == param(p, "Subject"@) && opt_text(
                        deduplication_id,
                    ) == param(p, "MessageDeduplicationId"@) && opt_text(group_id) == param(p, "MessageGroupId"@)
                        && attributes is None,
                },
            }
        },
        _ => r matches Err(e) && invalid_action(e, action),
    }
}

/// Reads the request that query parameters make.
#[verifier::rlimit(80)]
pub fn parse_sns_query(p: &Table<String>) -> (r: Result<SnsRequest, SnsError>)
    requires
        p.wf(),
    ensures
        query_request(texts(*p), r),
        r matches Ok(q) ==> q.wf(),
{
    proof {
        reveal_strlit("");
        reveal_strlit("sqs");
    }
    let action = match p.get("Action") {
        Some(a) => a.clone(),
        None => String::new(),
    };
    assert(action@ == query_action_text(texts(*p)));
    match parse_sns_action(action.as_str()) {
        SnsAction::CreateTopic => {
            let name = required_param(p, "Name")?;
            Ok(SnsRequest::CreateTopic { name, attributes: None })
        },
        SnsAction::ListTopics => Ok(SnsRequest::ListTopics),
        SnsAction::ListSubscriptions => Ok(SnsRequest::ListSubscriptions),
        SnsAction::DeleteTopic => {
            let topic_arn = required_param(p, "TopicArn")?;
            Ok(SnsRequest::DeleteTopic { topic_arn })
        },
        SnsAction::GetTopicAttributes => {
            let topic_arn = required_param(p, "TopicArn")?;
            Ok(SnsRequest::GetTopicAttributes { topic_arn })
        },
        SnsAction::SetTopicAttributes => {
            let topic_arn = required_param(p, "TopicArn")?;
            Ok(
                SnsRequest::SetTopicAttributes {
                    topic_arn,
                    name: param_or_exec(p, "AttributeName", ""),
                    value: param_or_exec(p, "AttributeValue", ""),
                },
            )
        },
        SnsAction::Subscribe => {
            let topic_arn = required_param(p, "TopicArn")?;
            Ok(
                SnsRequest::Subscribe {
                    topic_arn,
                    protocol: param_or_exec(p, "Protocol", "sqs"),
                    endpoint: param_or_exec(p, "Endpoint", ""),
                    attributes: None,
                },
            )
        },
        SnsAction::ListSubscriptionsByTopic => {
            let topic_arn = required_param(p, "TopicArn")?;
            Ok(SnsRequest::ListSubscriptionsByTopic { topic_arn })
        },
        SnsAction::Unsubscribe => {
            let subscription_arn = required_param(p, "SubscriptionArn")?;
            Ok(SnsRequest::Unsubscribe { subscription_arn })
        },
        SnsAction::GetSubscriptionAttributes => {
            let subscription_arn = required_param(p, "SubscriptionArn")?;
            Ok(SnsRequest::GetSubscriptionAttributes { subscription_arn })
        },
        SnsAction::SetSubscriptionAttributes => {
            let subscription_arn = required_param(p, "SubscriptionArn")?;
            Ok(
                SnsRequest::SetSubscriptionAttributes {
                    subscription_arn,
                    name: param_or_exec(p, "AttributeName", ""),
                    value: param_or_exec(p, "AttributeValue", ""),
                },
            )
        },
        SnsAction::Publish => {
            let topic_arn = match get_param(p, "TopicArn") {
                Some(t) => t,
                None => match get_param(p, "TargetArn") {
                    Some(t) => t,
                    None => {
                        return Err(missing("TopicArn"));
                    },
                },
            };
            let message = required_param(p, "Message")?;
            Ok(
                SnsRequest::Publish {
                    topic_arn,
                    message,
                    subject: get_param(p, "Subject"),
                    attributes: None,
                    deduplication_id: get_param(p, "MessageDeduplicationId"),
                    group_id: get_param(p, "MessageGroupId"),
                },
            )
        },
        _ => Err(invalid(action.as_str())),
    }
}

// ---------------------------------------------------------------------------
// Carrying out a request.

/// What a request to the notification service gives back.
pub enum SnsAnswer {
    Arn(String),
    Arns(Vec<String>),
    Attributes(Table<String>),
    Subscriptions(Vec<Subscription>),
    Published { message_id: String, sequence_number: Option<String> },
    PublishedBatch { successful: Vec<PublishBatchResultEntry>, failed: Vec<BatchErrorEntry> },
    Done,
}

impl SnsAnswer {
    /// The tables in the answer are well formed.
    pub open spec fn wf(&self) -> bool {
        match self {
            SnsAnswer::Attributes(t) => t.wf(),
            _ => true,
        }
    }
}

/// `r` is what carrying out request `q` on service `e0`, with queues `q0`,
/// gives; `e1` and `q1` are the service and queues after it.
pub open spec fn performed(
    e0: SnsEngine,
    e1: SnsEngine,
    q0: SqsEngine,
    q1: SqsEngine,
    q: SnsRequest,
    r: Result<SnsAnswer, SnsError>,
) -> bool {
    &&& r matches Ok(a) ==> a.wf()
    &&& match q {
        SnsRequest::Publish { .. } | SnsRequest::PublishBatch { .. } => e1 == e0,
        _ => q1 == q0,
    }
    &&& match q {
        SnsRequest::CreateTopic { name, attributes } => match r {
            Ok(SnsAnswer::Arn(a)) => topic_created(e0, e1, name@, attributes, Ok(a)),
            _ => false,
        },
        SnsRequest::DeleteTopic { topic_arn } => match r {
            Ok(SnsAnswer::Done) => topic_deleted(e0, e1, topic_arn@, Ok(())),
            Err(e) => topic_deleted(e0, e1, topic_arn@, Err(e)),
            _ => false,
        },
        SnsRequest::ListTopics => e1 == e0 && (r matches Ok(SnsAnswer::Arns(v)) && views(v@) == e0.topic_arns()),
        SnsRequest::GetTopicAttributes { topic_arn } => e1 == e0 && match r {
            Ok(SnsAnswer::Attributes(t)) => e0.topics().contains_key(topic_arn@) && texts(t) == topic_attribute_map(
                e0.topics()[topic_arn@],
                e0.account(),
                count_for(e0.subscription_arns(), e0.subscriptions(), topic_arn@),
            ),
            Err(e) => !e0.topics().contains_key(topic_arn@) && no_topic(e, topic_arn@),
            _ => false,
        },
        SnsRequest::SetTopicAttributes { topic_arn, name, value } => match r {
            Ok(SnsAnswer::Done) => topic_attribute_set(e0, e1, topic_arn@, name@, value@, Ok(())),
            Err(e) => topic_attribute_set(e0, e1, topic_arn@, name@, value@, Err(e)),
            _ => false,
        },
        SnsRequest::Subscribe { topic_arn, protocol, endpoint, attributes } => match r {
            Ok(SnsAnswer::Arn(a)) => subscribed(e0, e1, topic_arn@, protocol@, endpoint@, attributes, Ok(a)),
            Err(e) => subscribed(e0, e1, topic_arn@, protocol@, endpoint@, attributes, Err(e)),
            _ => false,
        },
        SnsRequest::Unsubscribe { subscription_arn } => match r {
            Ok(SnsAnswer::Done) => unsubscribed(e0, e1, subscription_arn@, Ok(())),
            Err(e) => unsubscribed(e0, e1, subscription_arn@, Err(e)),
            _ => false,
        },
        SnsRequest::ListSubscriptions => e1 == e0 && (r matches Ok(SnsAnswer::Subscriptions(v)) && v@.map_values(
            |s: Subscription| s@,
        ) == subs_for(e0.subscription_arns(), e0.subscriptions(), None)),
        SnsRequest::ListSubscriptionsByTopic { topic_arn } => e1 == e0 && match r {
            Ok(SnsAnswer::Subscriptions(v)) => e0.topics().contains_key(topic_arn@) && v@.map_values(
                |s: Subscription| s@,
            ) == subs_for(e0.subscription_arns(), e0.subscriptions(), Some(topic_arn@)),
            Err(e) => !e0.topics().contains_key(topic_arn@) && no_topic(e, topic_arn@),
            _ => false,
        },
        SnsRequest::GetSubscriptionAttributes { subscription_arn } => e1 == e0 && match r {
            Ok(SnsAnswer::Attributes(t)) => e0.subscriptions().contains_key(subscription_arn@) && texts(t)
                == subscription_attribute_map(e0.subscriptions()[subscription_arn@]),
            Err(e) => !e0.subscriptions().contains_key(subscription_arn@) && no_subscription(e, subscription_arn@),
            _ => false,
        },
        SnsRequest::SetSubscriptionAttributes { subscription_arn, name, value } => match r {
            Ok(SnsAnswer::Done) => subscription_attribute_set(e0, e1, subscription_arn@, name@, value@, Ok(())),
            Err(e) => subscription_attribute_set(e0, e1, subscription_arn@, name@, value@, Err(e)),
            _ => false,
        },
        SnsRequest::Publish { topic_arn, message, subject, attributes, deduplication_id, group_id } => match r {
            Ok(SnsAnswer::Published { message_id, sequence_number }) => published(
                e0,
                q0,
                q1,
                topic_arn@,
                message@,
                opt_text(subject),
                attributes,
                opt_text(deduplication_id),
                opt_text(group_id),
                Ok((message_id, sequence_number)),
            ),
            Err(e) => published(
                e0,
                q0,
                q1,
                topic_arn@,
                message@,
                opt_text(subject),
                attributes,
                opt_text(deduplication_id),
                opt_text(group_id),
                Err(e),
            ),
            _ => false,
        },
        SnsRequest::PublishBatch { topic_arn, entries } => match r {
            Ok(SnsAnswer::PublishedBatch { successful, failed }) => batch_published(
                e0,
                q0,
                q1,
                topic_arn@,
                entries@,
                Ok((successful, failed)),
            ),
            _ => false,
        },
    }
}

/// Carries out a request on the service; a publish delivers to `queues`.
pub fn perform(engine: &mut SnsEngine, queues: &mut SqsEngine, q: SnsRequest) -> (r: Result<SnsAnswer, SnsError>)
    requires
        old(engine).wf(),
        old(queues).wf(),
        q.wf(),
    ensures
        performed(*old(engine), *final(engine), *old(queues), *final(queues), q, r),
{
    match q {
        SnsRequest::CreateTopic { name, attributes } => match engine.create_topic(name.as_str(), attributes) {
            Ok(a) => Ok(SnsAnswer::Arn(a)),
            Err(e) => Err(e),
        },
        SnsRequest::DeleteTopic { topic_arn } => match engine.delete_topic(topic_arn.as_str()) {
            Ok(()) => Ok(SnsAnswer::Done),
            Err(e) => Err(e),
        },
        SnsRequest::ListTopics => match engine.list_topics() {
            Ok(v) => Ok(SnsAnswer::Arns(v)),
            Err(e) => Err(e),
        },
        SnsRequest::GetTopicAttributes { topic_arn } => match engine.get_topic_attributes(topic_arn.as_str()) {
            Ok(t) => Ok(SnsAnswer::Attributes(t)),
            Err(e) => Err(e),
        },
        SnsRequest::SetTopicAttributes { topic_arn, name, value } => match engine.set_topic_attributes(
            topic_arn.as_str(),
            name.as_str(),
            value.as_str(),
        ) {
            Ok(()) => Ok(SnsAnswer::Done),
            Err(e) => Err(e),
        },
        SnsRequest::Subscribe { topic_arn, protocol, endpoint, attributes } => match engine.subscribe(
            topic_arn.as_str(),
            protocol.as_str(),
            endpoint.as_str(),
            attributes,
        ) {
            Ok(a) => Ok(SnsAnswer::Arn(a)),
            Err(e) => Err(e),
        },
        SnsRequest::Unsubscribe { subscription_arn } => match engine.unsubscribe(subscription_arn.as_str()) {
            Ok(()) => Ok(SnsAnswer::Done),
            Err(e) => Err(e),
        },
        SnsRequest::ListSubscriptions => match engine.list_subscriptions() {
            Ok(v) => Ok(SnsAnswer::Subscriptions(v)),
            Err(e) => Err(e),
        },
        SnsRequest::ListSubscriptionsByTopic { topic_arn } => match engine.list_subscriptions_by_topic(
            topic_arn.as_str(),
        ) {
            Ok(v) => Ok(SnsAnswer::Subscriptions(v)),
            Err(e) => Err(e),
        },
        SnsRequest::GetSubscriptionAttributes { subscription_arn } => match engine.get_subscription_attributes(
            subscription_arn.as_str(),
        ) {
            Ok(t) => Ok(SnsAnswer::Attributes(t)),
            Err(e) => Err(e),
        },
        SnsRequest::SetSubscriptionAttributes { subscription_arn, name, value } => match engine.set_subscription_attributes(
            subscription_arn.as_str(),
            name.as_str(),
            value.as_str(),
        ) {
            Ok(()) => Ok(SnsAnswer::Done),
            Err(e) => Err(e),
        },
        SnsRequest::Publish { topic_arn, message, subject, attributes, deduplication_id, group_id } => {
            match engine.publish(queues, topic_arn.as_str(), message, subject, attributes, deduplication_id, group_id) {
                Ok((message_id, sequence_number)) => Ok(SnsAnswer::Published { message_id, sequence_number }),
                Err(e) => Err(e),
            }
        },
        SnsRequest::PublishBatch { topic_arn, entries } => match engine.publish_batch(queues, topic_arn.as_str(), entries) {
            Ok((successful, failed)) => Ok(SnsAnswer::PublishedBatch { successful, failed }),
            Err(e) => Err(e),
        },
    }
}

// ---------------------------------------------------------------------------
// Answers.

/// The JSON text of an answer.
pub open spec fn json_answer(q: SnsAction, a: SnsAnswer) -> Seq<char> {
    match a {
        SnsAnswer::Arn(arn) => if q == SnsAction::Subscribe {
            json_arn_answer("SubscriptionArn"@, arn@)
        } else {
            json_arn_answer("TopicArn"@, arn@)
        },
        SnsAnswer::Arns(v) => json_topics_answer(views(v@)),
        SnsAnswer::Attributes(t) => "{\"Attributes\":"@ + json_object(t) + "}"@,
        SnsAnswer::Subscriptions(v) => json_subscriptions_answer(v@),
        SnsAnswer::Published { message_id, sequence_number } => json_publish_answer(
            message_id@,
            opt_text(sequence_number),
        ),
        SnsAnswer::PublishedBatch { successful, failed } => json_publish_batch_answer(successful@, failed@),
        SnsAnswer::Done => "{}"@,
    }
}

/// The name of the XML answer to an action.
pub open spec fn answer_name(q: SnsAction) -> Seq<char> {
    match q {
        SnsAction::CreateTopic => "CreateTopic"@,
        SnsAction::DeleteTopic => "DeleteTopic"@,
        SnsAction::ListTopics => "ListTopics"@,
        SnsAction::GetTopicAttributes => "GetTopicAttributes"@,
        SnsAction::SetTopicAttributes => "SetTopicAttributes"@,
        SnsAction::Subscribe => "Subscribe"@,
        SnsAction::Unsubscribe => "Unsubscribe"@,
        SnsAction::ListSubscriptions => "ListSubscriptions"@,
        SnsAction::ListSubscriptionsByTopic => "ListSubscriptions"@,
        SnsAction::GetSubscriptionAttributes => "GetSubscriptionAttributes"@,
        SnsAction::SetSubscriptionAttributes => "SetSubscriptionAttributes"@,
        SnsAction::Publish => "Publish"@,
        SnsAction::PublishBatch => "PublishBatch"@,
        SnsAction::Unknown => ""@,
    }
}

fn answer_name_exec(q: SnsAction) -> (r: &'static str)
    ensures
        r@ == answer_name(q),
{
    match q {
        SnsAction::CreateTopic => "CreateTopic",
        SnsAction::DeleteTopic => "DeleteTopic",
        SnsAction::ListTopics => "ListTopics",
        SnsAction::GetTopicAttributes => "GetTopicAttributes",
        SnsAction::SetTopicAttributes => "SetTopicAttributes",
        SnsAction::Subscribe => "Subscribe",
        SnsAction::Unsubscribe => "Unsubscribe",
        SnsAction::ListSubscriptions => "ListSubscriptions",
        SnsAction::ListSubscriptionsByTopic => "ListSubscriptions",
        SnsAction::GetSubscriptionAttributes => "GetSubscriptionAttributes",
        SnsAction::SetSubscriptionAttributes => "SetSubscriptionAttributes",
        SnsAction::Publish => "Publish",
        SnsAction::PublishBatch => "PublishBatch",
        SnsAction::Unknown => "",
    }
}

/// The XML text of the answer to action `q`.
pub open spec fn xml_answer(q: SnsAction, a: SnsAnswer, request_id: Seq<char>) -> Seq<char> {
    match a {
        SnsAnswer::Arn(arn) => if q == SnsAction::Subscribe {
            xml_arn_answer("Subscribe"@, "SubscriptionArn"@, arn@, request_id)
        } else {
            xml_arn_answer("CreateTopic"@, "TopicArn"@, arn@, request_id)
        },
        SnsAnswer::Arns(v) => xml_topics_answer(views(v@), request_id),
        SnsAnswer::Attributes(t) => xml_attrs_answer(answer_name(q), t, request_id),
        SnsAnswer::Subscriptions(v) => xml_subscriptions_answer(v@, request_id),
        SnsAnswer::Published { message_id, sequence_number } => xml_publish_answer(
            message_id@,
            opt_text(sequence_number),
            request_id,
        ),
        SnsAnswer::PublishedBatch { .. } => xml_plain_answer(answer_name(q), request_id),
        SnsAnswer::Done => xml_plain_answer(answer_name(q), request_id),
    }
}

/// The answer in JSON.
pub fn render_json(q: SnsAction, a: &SnsAnswer) -> (r: Reply)
    requires
        a.wf(),
    ensures
        r.status == 200,
        r.content_type@ == JSON_TYPE@,
        r.body@ == json_answer(q, *a),
{
    let body = match a {
        SnsAnswer::Arn(arn) => if matches!(q, SnsAction::Subscribe) {
            json_arn_response("SubscriptionArn", arn.as_str())
        } else {
            json_arn_response("TopicArn", arn.as_str())
        },
        SnsAnswer::Arns(v) => json_list_topics_response(v),
        SnsAnswer::Attributes(t) => json_attributes_response(t),
        SnsAnswer::Subscriptions(v) => json_list_subscriptions_response(v),
        SnsAnswer::Published { message_id, sequence_number } => match sequence_number {
            Some(s) => json_publish_response(message_id.as_str(), Some(s.as_str())),
            None => json_publish_response(message_id.as_str(), None),
        },
        SnsAnswer::PublishedBatch { successful, failed } => json_publish_batch_response(successful, failed),
        SnsAnswer::Done => copy_str("{}"),
    };
    reply(200, JSON_TYPE, body)
}

/// The answer to action `q` in XML.
pub fn render_xml(q: SnsAction, a: &SnsAnswer, request_id: &str) -> (r: Reply)
    requires
        a.wf(),
    ensures
        r.status == 200,
        r.content_type@ == XML_TYPE@,
        r.body@ == xml_answer(q, *a, request_id@),
{
    let body = match a {
        SnsAnswer::Arn(arn) => if matches!(q, SnsAction::Subscribe) {
            xml_arn_response("Subscribe", "SubscriptionArn", arn.as_str(), request_id)
        } else {
            xml_arn_response("CreateTopic", "TopicArn", arn.as_str(), request_id)
        },
        SnsAnswer::Arns(v) => xml_list_topics_response(v, request_id),
        SnsAnswer::Attributes(t) => xml_attrs_response(answer_name_exec(q), t, request_id),
        SnsAnswer::Subscriptions(v) => xml_list_subscriptions_response(v, request_id),
        SnsAnswer::Published { message_id, sequence_number } => match sequence_number {
            Some(s) => xml_publish_response(message_id.as_str(), Some(s.as_str()), request_id),
            None => xml_publish_response(message_id.as_str(), None, request_id),
        },
        SnsAnswer::PublishedBatch { .. } => xml_plain_response(answer_name_exec(q), request_id),
        SnsAnswer::Done => xml_plain_response(answer_name_exec(q), request_id),
    };
    reply(200, XML_TYPE, body)
}

/// The JSON text of an error.
pub open spec fn json_error(e: SnsError) -> Seq<char> {
    "{\"__type\":"@ + json_str(e.kind.code_spec()) + ",\"message\":"@ + json_str(e.message@) + "}"@
}

/// The XML text of an error.
pub open spec fn xml_error(e: SnsError, request_id: Seq<char>) -> Seq<char> {
    "<?xml version=\"1.0\"?>\n<ErrorResponse xmlns=\"http://sns.amazonaws.com/doc/2010-03-31/\">\n    <Error>\n        <Type>Sender</Type>"@
        + crate::sqs::codec::xml_line("        "@, "Code"@, e.kind.code_spec()) + crate::sqs::codec::xml_line(
        "        "@,
        "Message"@,
        e.message@,
    ) + "\n    </Error>"@ + crate::sqs::codec::xml_line("    "@, "RequestId"@, request_id) + "\n</ErrorResponse>"@
}

/// The answer to a failed request, in the protocol asked for.
pub fn make_sns_error_response(e: &SnsError, request_id: &str, is_json: bool) -> (r: Reply)
    ensures
        r.status == e.kind.status_spec(),
        is_json ==> r.content_type@ == JSON_TYPE@ && r.body@ == json_error(*e),
        !is_json ==> r.content_type@ == XML_TYPE@ && r.body@ == xml_error(*e, request_id@),
{
    if is_json {
        let mut x = String::new();
        append(&mut x, "{\"__type\":");
        crate::http::append_json_str(&mut x, e.kind.code());
        append(&mut x, ",\"message\":");
        crate::http::append_json_str(&mut x, e.message.as_str());
        append(&mut x, "}");
        assert(x@ =~= json_error(*e));
        reply(e.kind.status(), JSON_TYPE, x)
    } else {
        let mut x = String::new();
        append(
            &mut x,
            "<?xml version=\"1.0\"?>\n<ErrorResponse xmlns=\"http://sns.amazonaws.com/doc/2010-03-31/\">\n    <Error>\n        <Type>Sender</Type>",
        );
        crate::sqs::codec::append_line(&mut x, "        ", "Code", e.kind.code());
        crate::sqs::codec::append_line(&mut x, "        ", "Message", e.message.as_str());
        append(&mut x, "\n    </Error>");
        crate::sqs::codec::append_line(&mut x, "    ", "RequestId", request_id);
        append(&mut x, "\n</ErrorResponse>");
        assert(x@ =~= xml_error(*e, request_id@));
        reply(e.kind.status(), XML_TYPE, x)
    }
}

/// Whether a request speaks the JSON protocol: its target names the service, or
/// its content type is JSON 1.0.
pub open spec fn is_json_request(target: Option<Seq<char>>, content_type: Option<Seq<char>>) -> bool {
    (target matches Some(t) && crate::text::is_prefix("AmazonSNS"@, t)) || (content_type matches Some(c)
        && crate::text::find_sub(c, "application/x-amz-json-1.0"@) is Some)
}

/// Whether a request speaks the JSON protocol.
pub fn is_json_protocol(target: Option<&str>, content_type: Option<&str>) -> (r: bool)
    ensures
        r == is_json_request(str_view(target), str_view(content_type)),
{
    let by_target = match target {
        Some(t) => crate::text::starts_with(t, "AmazonSNS"),
        None => false,
    };
    let by_type = match content_type {
        Some(c) => crate::text::contains_str(c, "application/x-amz-json-1.0"),
        None => false,
    };
    by_target || by_type
}

/// The action named by a JSON request's target: the target without its
/// `AmazonSNS.` prefix.
pub open spec fn json_action(target: Seq<char>) -> Seq<char> {
    if crate::text::is_prefix("AmazonSNS."@, target) {
        target.subrange(10, target.len() as int)
    } else {
        target
    }
}

/// How a JSON request went: `pr` is the request read, `res` what carrying it
/// out gave, and `r` the answer.
pub open spec fn json_handled(
    e0: SnsEngine,
    e1: SnsEngine,
    q0: SqsEngine,
    q1: SqsEngine,
    act: SnsAction,
    b: JsonValue,
    pr: Result<SnsRequest, SnsError>,
    res: Result<SnsAnswer, SnsError>,
    r: Reply,
) -> bool {
    &&& json_request(act, b, pr)
    &&& r.content_type@ == JSON_TYPE@
    &&& match pr {
        Err(e) => e1 == e0 && q1 == q0 && r.status == e.kind.status_spec() && r.body@ == json_error(e),
        Ok(q) => performed(e0, e1, q0, q1, q, res) && match res {
            Ok(a) => r.status == 200 && r.body@ == json_answer(act, a),
            Err(e) => r.status == e.kind.status_spec() && r.body@ == json_error(e),
        },
    }
}

/// How a request of the JSON protocol whose target is `target` and whose body
/// is `body` was answered by `r`: an unknown action is refused, any other is
/// read from the body, carried out and answered.
pub open spec fn json_answered(
    e0: SnsEngine,
    e1: SnsEngine,
    q0: SqsEngine,
    q1: SqsEngine,
    target: Seq<char>,
    body: JsonValue,
    r: Reply,
) -> bool {
    let a = json_action(target);
    let act = sns_action_of(a);
    &&& act == SnsAction::Unknown ==> e1 == e0 && q1 == q0 && r.status == 400 && r.content_type@ == JSON_TYPE@
        && r.body@ == "{\"__type\":"@ + json_str("InvalidAction"@) + ",\"message\":"@ + json_str(
        "The action "@ + a + " is not valid for this endpoint."@,
    ) + "}"@
    &&& act != SnsAction::Unknown ==> exists|pr: Result<SnsRequest, SnsError>, res: Result<SnsAnswer, SnsError>|
        #[trigger] json_handled(e0, e1, q0, q1, act, body, pr, res, r)
}

/// Handles a request of the JSON protocol, whose target names the action.
pub fn handle_sns_json(engine: &mut SnsEngine, queues: &mut SqsEngine, target: &str, body: &JsonValue) -> (r: Reply)
    requires
        old(engine).wf(),
        old(queues).wf(),
    ensures
        final(engine).wf(),
        final(queues).wf(),
        json_answered(*old(engine), *final(engine), *old(queues), *final(queues), target@, *body, r),
{
    proof {
        reveal_strlit("AmazonSNS.");
    }
    let action = match strip_prefix(target, "AmazonSNS.") {
        Some(a) => a,
        None => copy_str(target),
    };
    assert(action@ == json_action(target@));
    let act = parse_sns_action(action.as_str());
    if matches!(act, SnsAction::Unknown) {
        return make_sns_error_response(&invalid(action.as_str()), "", true);
    }
    let pr = parse_sns_json(act, body);
    match pr {
        Err(e) => {
            let r = make_sns_error_response(&e, "", true);
            assert(json_handled(*old(engine), *final(engine), *old(queues), *final(queues), act, *body, Err(e), Err(e), r));
            r
        },
        Ok(q) => {
            let ghost gq = q;
            let res = perform(engine, queues, q);
            let r = match &res {
                Ok(a) => render_json(act, a),
                Err(e) => make_sns_error_response(e, "", true),
            };
            assert(json_handled(*old(engine), *final(engine), *old(queues), *final(queues), act, *body, Ok(gq), res, r));
            r
        },
    }
}

/// How a query request went: `pr` is the request read from parameters `p`,
/// `res` what carrying it out gave, and `r` the answer.
pub open spec fn query_handled(
    e0: SnsEngine,
    e1: SnsEngine,
    q0: SqsEngine,
    q1: SqsEngine,
    p: Map<Seq<char>, Seq<char>>,
    request_id: Seq<char>,
    pr: Result<SnsRequest, SnsError>,
    res: Result<SnsAnswer, SnsError>,
    r: Reply,
) -> bool {
    &&& query_request(p, pr)
    &&& r.content_type@ == XML_TYPE@
    &&& match pr {
        Err(e) => e1 == e0 && q1 == q0 && r.status == e.kind.status_spec() && r.body@ == xml_error(e, request_id),
        Ok(q) => performed(e0, e1, q0, q1, q, res) && match res {
            Ok(a) => r.status == 200 && r.body@ == xml_answer(sns_action_of(query_action_text(p)), a, request_id),
            Err(e) => r.status == e.kind.status_spec() && r.body@ == xml_error(e, request_id),
        },
    }
}

/// Handles a request of the query protocol: parameters from the query string
/// and the form body.
pub fn handle_sns_query(
    engine: &mut SnsEngine,
    queues: &mut SqsEngine,
    query: Option<&str>,
    body: &[u8],
    request_id: &str,
) -> (r: Reply)
    requires
        old(engine).wf(),
        old(queues).wf(),
    ensures
        final(engine).wf(),
        final(queues).wf(),
        exists|pr: Result<SnsRequest, SnsError>, res: Result<SnsAnswer, SnsError>|
            #[trigger] query_handled(
                *old(engine),
                *final(engine),
                *old(queues),
                *final(queues),
                crate::http::request_param_map(str_view(query), body@),
                request_id@,
                pr,
                res,
                r,
            ),
{
    let p = crate::http::request_params(query, body);
    let ghost pm = texts(p);
    let action = match p.get("Action") {
        Some(a) => a.clone(),
        None => String::new(),
    };
    let act = parse_sns_action(action.as_str());
    assert(act == sns_action_of(query_action_text(pm)));
    let pr = parse_sns_query(&p);
    match pr {
        Err(e) => {
            let r = make_sns_error_response(&e, request_id, false);
            assert(query_handled(*old(engine), *final(engine), *old(queues), *final(queues), pm, request_id@, Err(e), Err(e), r));
            r
        },
        Ok(q) => {
            let ghost gq = q;
            let res = perform(engine, queues, q);
            let r = match &res {
                Ok(a) => render_xml(act, a, request_id),
                Err(e) => make_sns_error_response(e, request_id, false),
            };
            assert(query_handled(*old(engine), *final(engine), *old(queues), *final(queues), pm, request_id@, Ok(gq), res, r));
            r
        },
    }
}

/// Handles a request: the JSON protocol when its target names the service or
/// its content type is JSON 1.0, the query protocol otherwise. `parsed` is
/// what the JSON reader made of the body; it is read only for a JSON request
/// with a body, which it must be able to read.
pub fn handle_sns_request(
    engine: &mut SnsEngine,
    queues: &mut SqsEngine,
    target: Option<&str>,
    content_type: Option<&str>,
    query: Option<&str>,
    body: &[u8],
    parsed: Result<JsonValue, String>,
    request_id: &str,
) -> (r: Reply)
    requires
        old(engine).wf(),
        old(queues).wf(),
    ensures
        final(engine).wf(),
        final(queues).wf(),
        is_json_request(str_view(target), str_view(content_type)) ==> {
            &&& body_unreadable(body@, parsed) ==> *final(engine) == *old(engine) && *final(queues) == *old(queues)
                && r.status == 400 && r.content_type@ == JSON_TYPE@ && r.body@ == json_error(
                SnsError { kind: SnsErrorKind::BadRequest, message: parsed->Err_0 },
            )
            &&& !body_unreadable(body@, parsed) ==> exists|v: JsonValue|
                #[trigger] body_reads_as(body@, parsed, v) && json_answered(
                    *old(engine),
                    *final(engine),
                    *old(queues),
                    *final(queues),
                    match target {
                        Some(t) => t@,
                        None => Seq::empty(),
                    },
                    v,
                    r,
                )
        },
        !is_json_request(str_view(target), str_view(content_type)) ==> exists|
            pr: Result<SnsRequest, SnsError>,
            res: Result<SnsAnswer, SnsError>,
        |
            #[trigger] query_handled(
                *old(engine),
                *final(engine),
                *old(queues),
                *final(queues),
                crate::http::request_param_map(str_view(query), body@),
                request_id@,
                pr,
                res,
                r,
            ),
{
    if is_json_protocol(target, content_type) {
        match json_request_body(body, parsed) {
            Err(m) => make_sns_error_response(&SnsError { kind: SnsErrorKind::BadRequest, message: m }, request_id, true),
            Ok(v) => {
                let t = match target {
                    Some(t) => t,
                    None => "",
                };
                proof {
                    reveal_strlit("");
                }
                assert(t@ =~= match target {
                    Some(t) => t@,
                    None => Seq::empty(),
                });
                let r = handle_sns_json(engine, queues, t, &v);
                assert(body_reads_as(body@, parsed, v));
                r
            },
        }
    } else {
        handle_sns_query(engine, queues, query, body, request_id)
    }
}

} // verus!
