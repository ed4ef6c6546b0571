//! The answers of the notification service: the XML of the query protocol and
//! the JSON of the JSON protocol (keys in ascending order, as `serde_json`
//! writes a map).
use vstd::prelude::*;
use crate::http::{append_json_str, json_str};
use crate::sns::types::{BatchErrorEntry, PublishBatchResultEntry, Subscription};
use crate::sqs::codec::{
    append_line, bool_text, comma_join, json_object, lemma_join_step, put_object, table_texts, xml_line,
};
use crate::table::Table;
use crate::text::{append, append_escaped, views, xml_escaped};

verus! {

/// The opening of an answer to `action`.
pub open spec fn sns_open(action: Seq<char>) -> Seq<char> {
    "<?xml version=\"1.0\"?>\n<"@ + action + "Response xmlns=\"http://sns.amazonaws.com/doc/2010-03-31/\">"@
}

/// The closing of an answer to `action`, with the request id.
pub open spec fn sns_close(action: Seq<char>, request_id: Seq<char>) -> Seq<char> {
    "\n    <ResponseMetadata>\n        <RequestId>"@ + xml_escaped(request_id)
        + "</RequestId>\n    </ResponseMetadata>\n</"@ + action + "Response>"@
}

/// An answer that holds one ARN element named `tag`.
pub open spec fn xml_arn_answer(action: Seq<char>, tag: Seq<char>, arn: Seq<char>, request_id: Seq<char>) -> Seq<char> {
    sns_open(action) + "\n    <"@ + action + "Result>"@ + xml_line("        "@, tag, arn) + "\n    </"@ + action
        + "Result>"@ + sns_close(action, request_id)
}

/// An answer that holds nothing.
pub open spec fn xml_plain_answer(action: Seq<char>, request_id: Seq<char>) -> Seq<char> {
    sns_open(action) + sns_close(action, request_id)
}

/// The `<member>` elements of a list of topic ARNs.
pub open spec fn topic_members(arns: Seq<Seq<char>>) -> Seq<char>
    decreases arns.len(),
{
    if arns.len() == 0 {
        Seq::empty()
    } else {
        topic_members(arns.drop_last()) + "\n            <member>"@ + xml_line("                "@, "TopicArn"@, arns.last())
            + "\n            </member>"@
    }
}

/// The answer to `ListTopics`.
pub open spec fn xml_topics_answer(arns: Seq<Seq<char>>, request_id: Seq<char>) -> Seq<char> {
    sns_open("ListTopics"@) + "\n    <ListTopicsResult>\n        <Topics>"@ + topic_members(arns)
        + "\n        </Topics>\n    </ListTopicsResult>"@ + sns_close("ListTopics"@, request_id)
}

/// The `<entry>` elements of named values.
pub open spec fn entries_xml(keys: Seq<Seq<char>>, m: Map<Seq<char>, Seq<char>>) -> Seq<char>
    decreases keys.len(),
{
    if keys.len() == 0 {
        Seq::empty()
    } else {
        entries_xml(keys.drop_last(), m) + "\n            <entry>"@ + xml_line("                "@, "key"@, keys.last())
            + xml_line("                "@, "value"@, m[keys.last()]) + "\n            </entry>"@
    }
}

/// An answer listing attributes.
pub open spec fn xml_attrs_answer(action: Seq<char>, t: Table<String>, request_id: Seq<char>) -> Seq<char> {
    sns_open(action) + "\n    <"@ + action + "Result>\n        <Attributes>"@ + entries_xml(t.keys(), table_texts(t))
        + "\n        </Attributes>\n    </"@ + action + "Result>"@ + sns_close(action, request_id)
}

/// The `<member>` element of a subscription.
pub open spec fn subscription_member(s: Subscription) -> Seq<char> {
    "\n            <member>"@ + xml_line("                "@, "SubscriptionArn"@, s.subscription_arn@) + xml_line(
        "                "@,
        "Owner"@,
        s.owner@,
    ) + xml_line("                "@, "Protocol"@, s.protocol@) + xml_line("                "@, "Endpoint"@, s.endpoint@)
        + xml_line("                "@, "TopicArn"@, s.topic_arn@) + "\n            </member>"@
}

/// The `<member>` elements of subscriptions.
pub open spec fn subscription_members(ss: Seq<Subscription>) -> Seq<char>
    decreases ss.len(),
{
    if ss.len() == 0 {
        Seq::empty()
    } else {
        subscription_members(ss.drop_last()) + subscription_member(ss.last())
    }
}

/// The answer to `ListSubscriptions` and `ListSubscriptionsByTopic`.
pub open spec fn xml_subscriptions_answer(ss: Seq<Subscription>, request_id: Seq<char>) -> Seq<char> {
    sns_open("ListSubscriptions"@) + "\n    <ListSubscriptionsResult>\n        <Subscriptions>"@ + subscription_members(ss)
        + "\n        </Subscriptions>\n    </ListSubscriptionsResult>"@ + sns_close("ListSubscriptions"@, request_id)
}

/// The answer to `Publish`.
pub open spec fn xml_publish_answer(message_id: Seq<char>, seq: Option<Seq<char>>, request_id: Seq<char>) -> Seq<char> {
    sns_open("Publish"@) + "\n    <PublishResult>"@ + xml_line("        "@, "MessageId"@, message_id) + "\n        "@
        + match seq {
        Some(s) => "<SequenceNumber>"@ + xml_escaped(s) + "</SequenceNumber>"@,
        None => Seq::empty(),
    } + "\n    </PublishResult>"@ + sns_close("Publish"@, request_id)
}

fn put_open(x: &mut String, action: &str)
    ensures
        final(x)@ == old(x)@ + sns_open(action@),
{
    append(x, "<?xml version=\"1.0\"?>\n<");
    append(x, action);
    append(x, "Response xmlns=\"http://sns.amazonaws.com/doc/2010-03-31/\">");
    assert(x@ =~= old(x)@ + sns_open(action@));
}

fn put_close(x: &mut String, action: &str, request_id: &str)
    ensures
        final(x)@ == old(x)@ + sns_close(action@, request_id@),
{
    append(x, "\n    <ResponseMetadata>\n        <RequestId>");
    append_escaped(x, request_id);
    append(x, "</RequestId>\n    </ResponseMetadata>\n</");
    append(x, action);
    append(x, "Response>");
    assert(x@ =~= old(x)@ + sns_close(action@, request_id@));
}

/// An XML answer holding one ARN.
pub fn xml_arn_response(action: &str, tag: &str, arn: &str, request_id: &str) -> (r: String)
    ensures
        r@ == xml_arn_answer(action@, tag@, arn@, request_id@),
{
    let mut x = String::new();
    put_open(&mut x, action);
    append(&mut x, "\n    <");
    append(&mut x, action);
    append(&mut x, "Result>");
    append_line(&mut x, "        ", tag, arn);
    append(&mut x, "\n    </");
    append(&mut x, action);
    append(&mut x, "Result>");
    put_close(&mut x, action, request_id);
    assert(x@ =~= xml_arn_answer(action@, tag@, arn@, request_id@));
    x
}

/// The XML answer to `CreateTopic`.
pub fn xml_create_topic_response(topic_arn: &str, request_id: &str) -> (r: String)
    ensures
        r@ == xml_arn_answer("CreateTopic"@, "TopicArn"@, topic_arn@, request_id@),
{
    xml_arn_response("CreateTopic", "TopicArn", topic_arn, request_id)
}

/// The XML answer to `Subscribe`.
pub fn xml_subscribe_response(subscription_arn: &str, request_id: &str) -> (r: String)
    ensures
        r@ == xml_arn_answer("Subscribe"@, "SubscriptionArn"@, subscription_arn@, request_id@),
{
    xml_arn_response("Subscribe", "SubscriptionArn", subscription_arn, request_id)
}

/// An XML answer holding nothing.
pub fn xml_plain_response(action: &str, request_id: &str) -> (r: String)
    ensures
        r@ == xml_plain_answer(action@, request_id@),
{
    let mut x = String::new();
    put_open(&mut x, action);
    put_close(&mut x, action, request_id);
    assert(x@ =~= xml_plain_answer(action@, request_id@));
    x
}

/// The XML answer to `DeleteTopic`.
pub fn xml_delete_topic_response(request_id: &str) -> (r: String)
    ensures
        r@ == xml_plain_answer("DeleteTopic"@, request_id@),
{
    xml_plain_response("DeleteTopic", request_id)
}

/// The XML answer to `SetTopicAttributes`.
pub fn xml_set_topic_attributes_response(request_id: &str) -> (r: String)
    ensures
        r@ == xml_plain_answer("SetTopicAttributes"@, request_id@),
{
    xml_plain_response("SetTopicAttributes", request_id)
}

/// The XML answer to `Unsubscribe`.
pub fn xml_unsubscribe_response(request_id: &str) -> (r: String)
    ensures
        r@ == xml_plain_answer("Unsubscribe"@, request_id@),
{
    xml_plain_response("Unsubscribe", request_id)
}

/// The XML answer to `SetSubscriptionAttributes`.
pub fn xml_set_subscription_attributes_response(request_id: &str) -> (r: String)
    ensures
        r@ == xml_plain_answer("SetSubscriptionAttributes"@, request_id@),
{
    xml_plain_response("SetSubscriptionAttributes", request_id)
}

/// The XML answer to `ListTopics`.
pub fn xml_list_topics_response(topic_arns: &Vec<String>, request_id: &str) -> (r: String)
    ensures
        r@ == xml_topics_answer(views(topic_arns@), request_id@),
{
    let ghost arns = views(topic_arns@);
    let mut x = String::new();
    put_open(&mut x, "ListTopics");
    append(&mut x, "\n    <ListTopicsResult>\n        <Topics>");
    let ghost head = x@;
    let mut i: usize = 0;
    assert(arns.subrange(0, 0) =~= Seq::<Seq<char>>::empty());
    while i < topic_arns.len()
        invariant
            arns == views(topic_arns@),
            i <= arns.len(),
            x@ == head + topic_members(arns.subrange(0, i as int)),
        decreases arns.len() - i,
    {
        assert(arns.subrange(0, i + 1).drop_last() =~= arns.subrange(0, i as int));
        append(&mut x, "\n            <member>");
        append_line(&mut x, "                ", "TopicArn", topic_arns[i].as_str());
        append(&mut x, "\n            </member>");
        i = i + 1;
        assert(x@ =~= head + topic_members(arns.subrange(0, i as int)));
    }
    assert(arns.subrange(0, arns.len() as int) =~= arns);
    append(&mut x, "\n        </Topics>\n    </ListTopicsResult>");
    put_close(&mut x, "ListTopics", request_id);
    assert(x@ =~= xml_topics_answer(arns, request_id@));
    x
}

fn put_entries(x: &mut String, t: &Table<String>)
    requires
        t.wf(),
    ensures
        final(x)@ == old(x)@ + entries_xml(t.keys(), table_texts(*t)),
{
    let n = t.len();
    proof {
        t.lemma_wf();
    }
    let ghost ks = t.keys();
    let mut i: usize = 0;
    assert(ks.subrange(0, 0) =~= Seq::<Seq<char>>::empty());
    while i < n
        invariant
            t.wf(),
            ks == t.keys(),
            n == ks.len(),
            i <= n,
            forall|j: int| 0 <= j < n ==> #[trigger] t@.contains_key(ks[j]) && t@[ks[j]] == t.vals()[j],
            x@ == old(x)@ + entries_xml(ks.subrange(0, i as int), table_texts(*t)),
        decreases n - i,
    {
        let (k, v) = t.entry(i);
        proof {
            assert(ks.subrange(0, i + 1).drop_last() =~= ks.subrange(0, i as int));
            assert(t@.contains_key(ks[i as int]));
            assert(table_texts(*t)[ks[i as int]] == v@);
        }
        append(x, "\n            <entry>");
        append_line(x, "                ", "key", k.as_str());
        append_line(x, "                ", "value", v.as_str());
        append(x, "\n            </entry>");
        i = i + 1;
        assert(x@ =~= old(x)@ + entries_xml(ks.subrange(0, i as int), table_texts(*t)));
    }
    assert(ks.subrange(0, n as int) =~= ks);
}

/// An XML answer listing attributes, in name order.
pub fn xml_attrs_response(action: &str, attributes: &Table<String>, request_id: &str) -> (r: String)
    requires
        attributes.wf(),
    ensures
        r@ == xml_attrs_answer(action@, *attributes, request_id@),
{
    let mut x = String::new();
    put_open(&mut x, action);
    append(&mut x, "\n    <");
    append(&mut x, action);
    append(&mut x, "Result>\n        <Attributes>");
    put_entries(&mut x, attributes);
    append(&mut x, "\n        </Attributes>\n    </");
    append(&mut x, action);
    append(&mut x, "Result>");
    put_close(&mut x, action, request_id);
    assert(x@ =~= xml_attrs_answer(action@, *attributes, request_id@));
    x
}

/// The XML answer to `GetTopicAttributes`.
pub fn xml_get_topic_attributes_response(attributes: &Table<String>, request_id: &str) -> (r: String)
    requires
        attributes.wf(),
    ensures
        r@ == xml_attrs_answer("GetTopicAttributes"@, *attributes, request_id@),
{
    xml_attrs_response("GetTopicAttributes", attributes, request_id)
}

/// The XML answer to `GetSubscriptionAttributes`.
pub fn xml_get_subscription_attributes_response(attributes: &Table<String>, request_id: &str) -> (r: String)
    requires
        attributes.wf(),
    ensures
        r@ == xml_attrs_answer("GetSubscriptionAttributes"@, *attributes, request_id@),
{
    xml_attrs_response("GetSubscriptionAttributes", attributes, request_id)
}

fn put_member(x: &mut String, s: &Subscription)
    ensures
        final(x)@ == old(x)@ + subscription_member(*s),
{
    append(x, "\n            <member>");
    append_line(x, "                ", "SubscriptionArn", s.subscription_arn.as_str());
    append_line(x, "                ", "Owner", s.owner.as_str());
    append_line(x, "                ", "Protocol", s.protocol.as_str());
    append_line(x, "                ", "Endpoint", s.endpoint.as_str());
    append_line(x, "                ", "TopicArn", s.topic_arn.as_str());
    append(x, "\n            </member>");
    assert(x@ =~= old(x)@ + subscription_member(*s));
}

/// The XML answer listing subscriptions.
pub fn xml_list_subscriptions_response(subscriptions: &Vec<Subscription>, request_id: &str) -> (r: String)
    ensures
        r@ == xml_subscriptions_answer(subscriptions@, request_id@),
{
    let mut x = String::new();
    put_open(&mut x, "ListSubscriptions");
    append(&mut x, "\n    <ListSubscriptionsResult>\n        <Subscriptions>");
    let ghost head = x@;
    let mut i: usize = 0;
    assert(subscriptions@.subrange(0, 0) =~= Seq::<Subscription>::empty());
    while i < subscriptions.len()
        invariant
            i <= subscriptions@.len(),
            x@ == head + subscription_members(subscriptions@.subrange(0, i as int)),
        decreases subscriptions@.len() - i,
    {
        assert(subscriptions@.subrange(0, i + 1).drop_last() =~= subscriptions@.subrange(0, i as int));
        put_member(&mut x, &subscriptions[i]);
        i = i + 1;
        assert(x@ =~= head + subscription_members(subscriptions@.subrange(0, i as int)));
    }
    assert(subscriptions@.subrange(0, subscriptions@.len() as int) =~= subscriptions@);
    append(&mut x, "\n        </Subscriptions>\n    </ListSubscriptionsResult>");
    put_close(&mut x, "ListSubscriptions", request_id);
    assert(x@ =~= xml_subscriptions_answer(subscriptions@, request_id@));
    x
}

/// The XML answer to `Publish`.
pub fn xml_publish_response(message_id: &str, sequence_number: Option<&str>, request_id: &str) -> (r: String)
    ensures
        r@ == xml_publish_answer(
            message_id@,
            match sequence_number {
                Some(s) => Some(s@),
                None => None,
            },
            request_id@,
        ),
{
    let mut x = String::new();
    put_open(&mut x, "Publish");
    append(&mut x, "\n    <PublishResult>");
    append_line(&mut x, "        ", "MessageId", message_id);
    append(&mut x, "\n        ");
    match sequence_number {
        Some(s) => {
            append(&mut x, "<SequenceNumber>");
            append_escaped(&mut x, s);
            append(&mut x, "</SequenceNumber>");
        },
        None => {},
    }
    append(&mut x, "\n    </PublishResult>");
    put_close(&mut x, "Publish", request_id);
    assert(x@ =~= xml_publish_answer(
        message_id@,
        match sequence_number {
            Some(s) => Some(s@),
            None => None,
        },
        request_id@,
    ));
    x
}

/// The JSON answer holding one ARN under `key`.
pub open spec fn json_arn_answer(key: Seq<char>, arn: Seq<char>) -> Seq<char> {
    "{"@ + json_str(key) + ":"@ + json_str(arn) + "}"@
}

/// A JSON answer holding one ARN.
pub fn json_arn_response(key: &str, arn: &str) -> (r: String)
    ensures
        r@ == json_arn_answer(key@, arn@),
{
    let mut x = String::new();
    append(&mut x, "{");
    append_json_str(&mut x, key);
    append(&mut x, ":");
    append_json_str(&mut x, arn);
    append(&mut x, "}");
    assert(x@ =~= json_arn_answer(key@, arn@));
    x
}

/// The JSON answer to `CreateTopic`.
pub fn json_create_topic_response(topic_arn: &str) -> (r: String)
    ensures
        r@ == json_arn_answer("TopicArn"@, topic_arn@),
{
    json_arn_response("TopicArn", topic_arn)
}

/// The JSON answer to `Subscribe`.
pub fn json_subscribe_response(subscription_arn: &str) -> (r: String)
    ensures
        r@ == json_arn_answer("SubscriptionArn"@, subscription_arn@),
{
    json_arn_response("SubscriptionArn", subscription_arn)
}

/// The JSON answer to `ListTopics`.
pub open spec fn json_topics_answer(arns: Seq<Seq<char>>) -> Seq<char> {
    "{\"Topics\":["@ + comma_join(arns.map_values(|a: Seq<char>| "{\"TopicArn\":"@ + json_str(a) + "}"@)) + "]}"@
}

/// The JSON answer to `ListTopics`.
pub fn json_list_topics_response(topic_arns: &Vec<String>) -> (r: String)
    ensures
        r@ == json_topics_answer(views(topic_arns@)),
{
    let ghost parts = views(topic_arns@).map_values(|a: Seq<char>| "{\"TopicArn\":"@ + json_str(a) + "}"@);
    let mut x = String::new();
    append(&mut x, "{\"Topics\":[");
    let ghost head = x@;
    let mut i: usize = 0;
    assert(parts.subrange(0, 0) =~= Seq::<Seq<char>>::empty());
    while i < topic_arns.len()
        invariant
            parts == views(topic_arns@).map_values(|a: Seq<char>| "{\"TopicArn\":"@ + json_str(a) + "}"@),
            i <= topic_arns@.len(),
            x@ == head + comma_join(parts.subrange(0, i as int)),
        decreases topic_arns@.len() - i,
    {
        proof {
            lemma_join_step(parts, i as int);
        }
        if i > 0 {
            append(&mut x, ",");
        }
        append(&mut x, "{\"TopicArn\":");
        append_json_str(&mut x, topic_arns[i].as_str());
        append(&mut x, "}");
        i = i + 1;
        assert(x@ =~= head + comma_join(parts.subrange(0, i as int)));
    }
    assert(parts.subrange(0, topic_arns@.len() as int) =~= parts);
    append(&mut x, "]}");
    assert(x@ =~= json_topics_answer(views(topic_arns@)));
    x
}

/// The JSON answer listing attributes.
pub fn json_attributes_response(attributes: &Table<String>) -> (r: String)
    requires
        attributes.wf(),
    ensures
        r@ == "{\"Attributes\":"@ + json_object(*attributes) + "}"@,
{
    let mut x = String::new();
    append(&mut x, "{\"Attributes\":");
    put_object(&mut x, attributes);
    append(&mut x, "}");
    assert(x@ =~= "{\"Attributes\":"@ + json_object(*attributes) + "}"@);
    x
}

/// One subscription in JSON.
pub open spec fn json_subscription(s: Subscription) -> Seq<char> {
    "{\"Endpoint\":"@ + json_str(s.endpoint@) + ",\"Owner\":"@ + json_str(s.owner@) + ",\"Protocol\":"@ + json_str(
        s.protocol@,
    ) + ",\"SubscriptionArn\":"@ + json_str(s.subscription_arn@) + ",\"TopicArn\":"@ + json_str(s.topic_arn@) + "}"@
}

/// The JSON answer listing subscriptions.
pub open spec fn json_subscriptions_answer(ss: Seq<Subscription>) -> Seq<char> {
    "{\"Subscriptions\":["@ + comma_join(ss.map_values(|s: Subscription| json_subscription(s))) + "]}"@
}

fn put_subscription_json(x: &mut String, s: &Subscription)
    ensures
        final(x)@ == old(x)@ + json_subscription(*s),
{
    append(x, "{\"Endpoint\":");
    append_json_str(x, s.endpoint.as_str());
    append(x, ",\"Owner\":");
    append_json_str(x, s.owner.as_str());
    append(x, ",\"Protocol\":");
    append_json_str(x, s.protocol.as_str());
    append(x, ",\"SubscriptionArn\":");
    append_json_str(x, s.subscription_arn.as_str());
    append(x, ",\"TopicArn\":");
    append_json_str(x, s.topic_arn.as_str());
    append(x, "}");
    assert(x@ =~= old(x)@ + json_subscription(*s));
}

/// The JSON answer listing subscriptions.
pub fn json_list_subscriptions_response(subscriptions: &Vec<Subscription>) -> (r: String)
    ensures
        r@ == json_subscriptions_answer(subscriptions@),
{
    let ghost parts = subscriptions@.map_values(|s: Subscription| json_subscription(s));
    let mut x = String::new();
    append(&mut x, "{\"Subscriptions\":[");
    let ghost head = x@;
    let mut i: usize = 0;
    assert(parts.subrange(0, 0) =~= Seq::<Seq<char>>::empty());
    while i < subscriptions.len()
        invariant
            parts == subscriptions@.map_values(|s: Subscription| json_subscription(s)),
            i <= subscriptions@.len(),
            x@ == head + comma_join(parts.subrange(0, i as int)),
        decreases subscriptions@.len() - i,
    {
        proof {
            lemma_join_step(parts, i as int);
        }
        if i > 0 {
            append(&mut x, ",");
        }
        put_subscription_json(&mut x, &subscriptions[i]);
        i = i + 1;
        assert(x@ =~= head + comma_join(parts.subrange(0, i as int)));
    }
    assert(parts.subrange(0, subscriptions@.len() as int) =~= parts);
    append(&mut x, "]}");
    assert(x@ =~= json_subscriptions_answer(subscriptions@));
    x
}

/// The JSON answer to `Publish`.
pub open spec fn json_publish_answer(message_id: Seq<char>, seq: Option<Seq<char>>) -> Seq<char> {
    "{\"MessageId\":"@ + json_str(message_id) + match seq {
        Some(s) => ",\"SequenceNumber\":"@ + json_str(s),
        None => Seq::empty(),
    } + "}"@
}

/// The JSON answer to `Publish`.
pub fn json_publish_response(message_id: &str, sequence_number: Option<&str>) -> (r: String)
    ensures
        r@ == json_publish_answer(
            message_id@,
            match sequence_number {
                Some(s) => Some(s@),
                None => None,
            },
        ),
{
    let mut x = String::new();
    append(&mut x, "{\"MessageId\":");
    append_json_str(&mut x, message_id);
    match sequence_number {
        Some(s) => {
            append(&mut x, ",\"SequenceNumber\":");
            append_json_str(&mut x, s);
        },
        None => {},
    }
    append(&mut x, "}");
    assert(x@ =~= json_publish_answer(
        message_id@,
        match sequence_number {
            Some(s) => Some(s@),
            None => None,
        },
    ));
    x
}

/// One failed entry of a batch publish, in JSON.
pub open spec fn json_failed(f: BatchErrorEntry) -> Seq<char> {
    "{\"Code\":"@ + json_str(f.code@) + ",\"Id\":"@ + json_str(f.id@) + ",\"Message\":"@ + json_str(f.message@)
        + ",\"SenderFault\":"@ + bool_text(f.sender_fault) + "}"@
}

/// One successful entry of a batch publish, in JSON.
pub open spec fn json_published(s: PublishBatchResultEntry) -> Seq<char> {
    "{\"Id\":"@ + json_str(s.id@) + ",\"MessageId\":"@ + json_str(s.message_id@) + match s.sequence_number {
        Some(q) => ",\"SequenceNumber\":"@ + json_str(q@),
        None => Seq::empty(),
    } + "}"@
}

/// The JSON answer to `PublishBatch`.
pub open spec fn json_publish_batch_answer(ok: Seq<PublishBatchResultEntry>, failed: Seq<BatchErrorEntry>) -> Seq<char> {
    "{\"Failed\":["@ + comma_join(failed.map_values(|f: BatchErrorEntry| json_failed(f))) + "],\"Successful\":["@
        + comma_join(ok.map_values(|s: PublishBatchResultEntry| json_published(s))) + "]}"@
}

fn put_failed(x: &mut String, f: &BatchErrorEntry)
    ensures
        final(x)@ == old(x)@ + json_failed(*f),
{
    append(x, "{\"Code\":");
    append_json_str(x, f.code.as_str());
    append(x, ",\"Id\":");
    append_json_str(x, f.id.as_str());
    append(x, ",\"Message\":");
    append_json_str(x, f.message.as_str());
    append(x, ",\"SenderFault\":");
    if f.sender_fault {
        append(x, "true");
    } else {
        append(x, "false");
    }
    append(x, "}");
    assert(x@ =~= old(x)@ + json_failed(*f));
}

fn put_published(x: &mut String, s: &PublishBatchResultEntry)
    ensures
        final(x)@ == old(x)@ + json_published(*s),
{
    append(x, "{\"Id\":");
    append_json_str(x, s.id.as_str());
    append(x, ",\"MessageId\":");
    append_json_str(x, s.message_id.as_str());
    match &s.sequence_number {
        Some(q) => {
            append(x, ",\"SequenceNumber\":");
            append_json_str(x, q.as_str());
        },
        None => {},
    }
    append(x, "}");
    assert(x@ =~= old(x)@ + json_published(*s));
}

/// The JSON answer to `PublishBatch`.
pub fn json_publish_batch_response(successful: &Vec<PublishBatchResultEntry>, failed: &Vec<BatchErrorEntry>) -> (r:
    String)
    ensures
        r@ == json_publish_batch_answer(successful@, failed@),
{
    let ghost fparts = failed@.map_values(|f: BatchErrorEntry| json_failed(f));
    let ghost sparts = successful@.map_values(|s: PublishBatchResultEntry| json_published(s));
    let mut x = String::new();
    append(&mut x, "{\"Failed\":[");
    let ghost h1 = x@;
    let mut i: usize = 0;
    assert(fparts.subrange(0, 0) =~= Seq::<Seq<char>>::empty());
    while i < failed.len()
        invariant
            fparts == failed@.map_values(|f: BatchErrorEntry| json_failed(f)),
            i <= failed@.len(),
            x@ == h1 + comma_join(fparts.subrange(0, i as int)),
        decreases failed@.len() - i,
    {
        proof {
            lemma_join_step(fparts, i as int);
        }
        if i > 0 {
            append(&mut x, ",");
        }
        put_failed(&mut x, &failed[i]);
        i = i + 1;
        assert(x@ =~= h1 + comma_join(fparts.subrange(0, i as int)));
    }
    assert(fparts.subrange(0, failed@.len() as int) =~= fparts);
    append(&mut x, "],\"Successful\":[");
    let ghost h2 = x@;
    let mut j: usize = 0;
    assert(sparts.subrange(0, 0) =~= Seq::<Seq<char>>::empty());
    while j < successful.len()
        invariant
            sparts == successful@.map_values(|s: PublishBatchResultEntry| json_published(s)),
            j <= successful@.len(),
            x@ == h2 + comma_join(sparts.subrange(0, j as int)),
        decreases successful@.len() - j,
    {
        proof {
            lemma_join_step(sparts, j as int);
        }
        if j > 0 {
            append(&mut x, ",");
        }
        put_published(&mut x, &successful[j]);
        j = j + 1;
        assert(x@ =~= h2 + comma_join(sparts.subrange(0, j as int)));
    }
    assert(sparts.subrange(0, successful@.len() as int) =~= sparts);
    append(&mut x, "]}");
    assert(x@ =~= json_publish_batch_answer(successful@, failed@));
    x
}

} // verus!
