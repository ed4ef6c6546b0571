//! The notification service: topics by ARN, subscriptions by ARN, and the
//! fan-out of a published message to the queues subscribed to its topic.
use vstd::prelude::*;
use crate::http::{append_json_str, json_str};
use crate::runtime::{new_uuid, now_rfc3339, now_seconds, now_millis};
use crate::ses::state::{copy_opt, opt_text};
use crate::sns::types::{
    BatchErrorEntry, MessageAttributeValue, PublishBatchEntry, PublishBatchResultEntry, Subscription,
    SubscriptionAttributes, SubscriptionView, Topic, TopicAttributes, TopicSettings, TopicView,
};
use crate::sqs::engine::{after_send, resolved_name, SqsEngine};
use crate::sqs::queue::QueueView;
use crate::sqs::types::AttrView;
use crate::table::{lemma_map_values_insert, lemma_map_values_remove, Table};
use crate::text::{
    append, copy_str, decimal, ends_with, eq_ignore_ascii_case, eq_ignore_case, is_suffix, last_index_of,
    lower_seq, rfind_char, str_eq, to_ascii_lowercase, to_chars, chars_to_string,
};

verus! {

/// Why a notification request failed.
#[derive(Debug, Clone, Copy, PartialEq, Eq)]
pub enum SnsErrorKind {
    NotFound,
    InvalidParameter,
    InvalidAction,
    BadRequest,
}

/// A failed notification request: the reason and a message.
#[derive(Debug)]
pub struct SnsError {
    pub kind: SnsErrorKind,
    pub message: String,
}

impl SnsErrorKind {
    /// The error code, as text.
    pub open spec fn code_spec(&self) -> Seq<char> {
        match self {
            SnsErrorKind::NotFound => "NotFound"@,
            SnsErrorKind::InvalidParameter => "InvalidParameter"@,
            SnsErrorKind::InvalidAction => "InvalidAction"@,
            SnsErrorKind::BadRequest => "BadRequest"@,
        }
    }

    /// The error code.
    pub fn code(&self) -> (r: &'static str)
        ensures
            r@ == self.code_spec(),
    {
        match self {
            SnsErrorKind::NotFound => "NotFound",
            SnsErrorKind::InvalidParameter => "InvalidParameter",
            SnsErrorKind::InvalidAction => "InvalidAction",
            SnsErrorKind::BadRequest => "BadRequest",
        }
    }

    /// The HTTP status: 404 for a missing topic or subscription, 400 otherwise.
    pub open spec fn status_spec(&self) -> u16 {
        if *self == SnsErrorKind::NotFound {
            404u16
        } else {
            400u16
        }
    }

    /// The HTTP status.
    pub fn status(&self) -> (r: u16)
        ensures
            r == self.status_spec(),
    {
        match self {
            SnsErrorKind::NotFound => 404,
            _ => 400,
        }
    }
}

/// The text of a table of strings.
pub open spec fn texts(t: Table<String>) -> Map<Seq<char>, Seq<char>> {
    t@.map_values(|v: String| v@)
}

/// The text of an optional table of strings; none is empty.
pub open spec fn opt_texts(o: Option<Table<String>>) -> Map<Seq<char>, Seq<char>> {
    match o {
        Some(t) => texts(t),
        None => Map::empty(),
    }
}

/// The error for a topic that does not exist.
pub open spec fn no_topic(e: SnsError, arn: Seq<char>) -> bool {
    e.kind == SnsErrorKind::NotFound && e.message@ == "Topic does not exist: "@ + arn
}

/// The error for a subscription that does not exist.
pub open spec fn no_subscription(e: SnsError, arn: Seq<char>) -> bool {
    e.kind == SnsErrorKind::NotFound && e.message@ == "Subscription does not exist: "@ + arn
}

/// The last `:`-separated segment of an ARN.
pub open spec fn last_segment(arn: Seq<char>) -> Seq<char> {
    crate::text::after_last(arn, ':')
}

/// An optional setting: the value given, else `current`.
pub open spec fn text_setting(a: Map<Seq<char>, Seq<char>>, key: Seq<char>, current: Option<Seq<char>>) -> Option<
    Seq<char>,
> {
    if a.contains_key(key) {
        Some(a[key])
    } else {
        current
    }
}

/// A switch: whether the value given says `true` in any case, else `current`.
pub open spec fn flag_setting(a: Map<Seq<char>, Seq<char>>, key: Seq<char>, current: bool) -> bool {
    if a.contains_key(key) {
        eq_ignore_case(a[key], "true"@)
    } else {
        current
    }
}

/// The settings of a topic created under `name` with attributes `a`.
pub open spec fn created_topic_settings(name: Seq<char>, a: Map<Seq<char>, Seq<char>>) -> TopicSettings {
    TopicSettings {
        display_name: text_setting(a, "DisplayName"@, None),
        policy: text_setting(a, "Policy"@, None),
        delivery_policy: text_setting(a, "DeliveryPolicy"@, None),
        effective_delivery_policy: None,
        kms_master_key_id: text_setting(a, "KmsMasterKeyId"@, None),
        is_fifo: flag_setting(a, "FifoTopic"@, is_suffix(".fifo"@, name)),
        content_based_deduplication: flag_setting(a, "ContentBasedDeduplication"@, false),
    }
}

/// Topic settings `s` with one attribute set.
pub open spec fn topic_setting_set(s: TopicSettings, name: Seq<char>, value: Seq<char>) -> TopicSettings {
    if name == "DisplayName"@ {
        TopicSettings { display_name: Some(value), ..s }
    } else if name == "Policy"@ {
        TopicSettings { policy: Some(value), ..s }
    } else if name == "DeliveryPolicy"@ {
        TopicSettings { delivery_policy: Some(value), ..s }
    } else if name == "ContentBasedDeduplication"@ {
        TopicSettings { content_based_deduplication: eq_ignore_case(value, "true"@), ..s }
    } else if name == "KmsMasterKeyId"@ {
        TopicSettings { kms_master_key_id: Some(value), ..s }
    } else {
        s
    }
}

/// Subscription `s` with one attribute set.
pub open spec fn subscription_setting_set(s: SubscriptionView, name: Seq<char>, value: Seq<char>) -> SubscriptionView {
    if name == "RawMessageDelivery"@ {
        SubscriptionView { raw_message_delivery: eq_ignore_case(value, "true"@), ..s }
    } else if name == "FilterPolicy"@ {
        SubscriptionView { filter_policy: Some(value), ..s }
    } else if name == "RedrivePolicy"@ {
        SubscriptionView { redrive_policy: Some(value), ..s }
    } else {
        s
    }
}

/// How many of the subscriptions listed in `keys` are to topic `arn`.
pub open spec fn count_for(keys: Seq<Seq<char>>, subs: Map<Seq<char>, SubscriptionView>, arn: Seq<char>) -> nat
    decreases keys.len(),
{
    if keys.len() == 0 {
        0
    } else {
        count_for(keys.drop_last(), subs, arn) + if subs[keys.last()].topic_arn == arn {
            1nat
        } else {
            0nat
        }
    }
}

/// The subscriptions listed in `keys` that are to topic `arn` (all of them
/// when `arn` is `None`), in that order.
pub open spec fn subs_for(keys: Seq<Seq<char>>, subs: Map<Seq<char>, SubscriptionView>, arn: Option<Seq<char>>) -> Seq<
    SubscriptionView,
>
    decreases keys.len(),
{
    if keys.len() == 0 {
        Seq::empty()
    } else {
        let rest = subs_for(keys.drop_last(), subs, arn);
        let s = subs[keys.last()];
        if arn is None || s.topic_arn == arn.unwrap() {
            rest.push(s)
        } else {
            rest
        }
    }
}

/// `m` with `key` set to `v` when `cond` holds.
pub open spec fn put_when(m: Map<Seq<char>, Seq<char>>, cond: bool, key: Seq<char>, v: Seq<char>) -> Map<
    Seq<char>,
    Seq<char>,
> {
    if cond {
        m.insert(key, v)
    } else {
        m
    }
}

/// The attributes of topic `t` in an account, `n` being how many
/// subscriptions it has.
pub open spec fn topic_attribute_map(t: TopicView, account: Seq<char>, n: nat) -> Map<Seq<char>, Seq<char>> {
    let s = t.attributes;
    let m = Map::empty().insert("TopicArn"@, t.arn).insert("Owner"@, account).insert(
        "SubscriptionsConfirmed"@,
        decimal(n),
    ).insert("SubscriptionsPending"@, "0"@).insert("SubscriptionsDeleted"@, "0"@);
    let m = put_when(m, s.display_name is Some, "DisplayName"@, s.display_name.unwrap());
    let m = put_when(m, s.is_fifo, "FifoTopic"@, "true"@);
    let m = put_when(
        m,
        s.is_fifo,
        "ContentBasedDeduplication"@,
        if s.content_based_deduplication {
            "true"@
        } else {
            "false"@
        },
    );
    put_when(m, s.policy is Some, "Policy"@, s.policy.unwrap())
}

/// The attributes of a subscription.
pub open spec fn subscription_attribute_map(s: SubscriptionView) -> Map<Seq<char>, Seq<char>> {
    let m = Map::empty().insert("SubscriptionArn"@, s.subscription_arn).insert("TopicArn"@, s.topic_arn).insert(
        "Protocol"@,
        s.protocol,
    ).insert("Endpoint"@, s.endpoint).insert("Owner"@, s.owner).insert(
        "RawMessageDelivery"@,
        if s.raw_message_delivery {
            "true"@
        } else {
            "false"@
        },
    );
    let m = put_when(m, s.filter_policy is Some, "FilterPolicy"@, s.filter_policy.unwrap());
    put_when(m, s.redrive_policy is Some, "RedrivePolicy"@, s.redrive_policy.unwrap())
}

// ---------------------------------------------------------------------------
// Filter policies.

/// One allowed value of a filter policy.
pub enum PolicyValue {
    Text(String),
    Whole(i64),
    Other,
}

/// One allowed value of a filter policy, as text.
pub enum PolicyTerm {
    Text(Seq<char>),
    Whole(i64),
    Other,
}

impl PolicyValue {
    pub open spec fn view(&self) -> PolicyTerm {
        match self {
            PolicyValue::Text(s) => PolicyTerm::Text(s@),
            PolicyValue::Whole(n) => PolicyTerm::Whole(*n),
            PolicyValue::Other => PolicyTerm::Other,
        }
    }
}

/// The members of a parsed filter policy.
pub open spec fn policy_view(p: Option<Vec<(String, Option<Vec<PolicyValue>>)>>) -> Option<
    Seq<(Seq<char>, Option<Seq<PolicyTerm>>)>,
> {
    match p {
        Some(v) => Some(
            v@.map_values(
                |m: (String, Option<Vec<PolicyValue>>)|
                    (
                        m.0@,
                        match m.1 {
                            Some(items) => Some(items@.map_values(|x: PolicyValue| x@)),
                            None => None,
                        },
                    ),
            ),
        ),
        None => None,
    }
}

/// What a filter policy's text holds when read as JSON: the members of the
/// object, each with its allowed values when it is an array; `None` when the
/// text is not a JSON object.
pub uninterp spec fn filter_policy_terms(text: Seq<char>) -> Option<Seq<(Seq<char>, Option<Seq<PolicyTerm>>)>>;

/// `serde_json::from_str` on a filter policy: the members of the JSON object,
/// each with the items of its value when that is an array (a string, an
/// integer that fits in 64 bits, or something else); `None` when the text is
/// not JSON or not an object.
#[verifier::external_body]
fn parse_filter_policy(text: &str) -> (r: Option<Vec<(String, Option<Vec<PolicyValue>>)>>)
    ensures
        policy_view(r) == filter_policy_terms(text@),
{
    let v: serde_json::Value = serde_json::from_str(text).ok()?;
    let o = v.as_object()?;
    Some(o.iter().map(|(k, a)| (k.clone(), a.as_array().map(|items| items.iter().map(|x| match x {
        serde_json::Value::String(s) => PolicyValue::Text(s.clone()),
        serde_json::Value::Number(n) => n.as_i64().map_or(PolicyValue::Other, PolicyValue::Whole),
        _ => PolicyValue::Other,
    }).collect()))).collect())
}

/// Whether one allowed value admits the attribute's text.
pub open spec fn term_admits(t: PolicyTerm, v: Seq<char>) -> bool {
    match t {
        PolicyTerm::Text(s) => s == v,
        PolicyTerm::Whole(n) => crate::text::signed_decimal(n as int) == v,
        PolicyTerm::Other => false,
    }
}

/// Whether any allowed value admits the attribute's text.
pub open spec fn any_admits(ts: Seq<PolicyTerm>, v: Seq<char>) -> bool {
    exists|i: int| 0 <= i < ts.len() && #[trigger] term_admits(ts[i], v)
}

/// Whether message attributes meet one member of a filter policy: the
/// attribute is there with a string value, admitted by the member's array when
/// it is one.
pub open spec fn member_met(m: (Seq<char>, Option<Seq<PolicyTerm>>), attrs: Map<Seq<char>, AttrView>) -> bool {
    &&& attrs.contains_key(m.0)
    &&& attrs[m.0].string_value is Some
    &&& (m.1 matches Some(ts) ==> any_admits(ts, attrs[m.0].string_value.unwrap()))
}

/// Whether a message with attributes `attrs` passes a filter policy whose text
/// reads as `policy`: always when it is not a JSON object; never when the message
/// has no attributes; else when every member is met.
pub open spec fn policy_passes(
    policy: Option<Seq<(Seq<char>, Option<Seq<PolicyTerm>>)>>,
    attrs: Option<Map<Seq<char>, AttrView>>,
) -> bool {
    policy is None || (attrs is Some && forall|i: int|
        0 <= i < policy.unwrap().len() ==> #[trigger] member_met(policy.unwrap()[i], attrs.unwrap()))
}

/// A filter policy that allows attribute `key` the strings `allowed` lets a
/// message through exactly when the message's `key` attribute is a string equal
/// to one of them: a string that only begins or ends with an allowed one is
/// refused.
pub proof fn law_string_filter_matches_exactly(
    key: Seq<char>,
    allowed: Seq<Seq<char>>,
    attrs: Map<Seq<char>, AttrView>,
)
    ensures
        policy_passes(
            Some(seq![(key, Some(allowed.map_values(|a: Seq<char>| PolicyTerm::Text(a))))]),
            Some(attrs),
        ) <==> (attrs.contains_key(key) && attrs[key].string_value is Some && allowed.contains(
            attrs[key].string_value.unwrap(),
        )),
{
    let ts = allowed.map_values(|a: Seq<char>| PolicyTerm::Text(a));
    let p = seq![(key, Some(ts))];
    assert(p.len() == 1 && p[0] == (key, Some(ts)));
    assert(ts.len() == allowed.len());
    let met = attrs.contains_key(key) && attrs[key].string_value is Some && allowed.contains(
        attrs[key].string_value.unwrap(),
    );
    if met {
        let v = attrs[key].string_value.unwrap();
        let i = choose|i: int| 0 <= i < allowed.len() && allowed[i] == v;
        assert(ts[i] == PolicyTerm::Text(allowed[i]));
        assert(term_admits(ts[i], v));
        assert(any_admits(ts, v));
        assert(member_met(p[0], attrs));
        assert forall|j: int| 0 <= j < p.len() implies #[trigger] member_met(p[j], attrs) by {
            assert(j == 0);
        }
        assert(policy_passes(Some(p), Some(attrs)));
    } else {
        if attrs.contains_key(key) && attrs[key].string_value is Some {
            let v = attrs[key].string_value.unwrap();
            assert forall|i: int| 0 <= i < ts.len() implies !#[trigger] term_admits(ts[i], v) by {
                assert(ts[i] == PolicyTerm::Text(allowed[i]));
                if allowed[i] == v {
                    assert(allowed.contains(v));
                }
            }
            assert(!any_admits(ts, v));
        }
        assert(!member_met(p[0], attrs));
        if policy_passes(Some(p), Some(attrs)) {
            assert(member_met(Some(p).unwrap()[0], Some(attrs).unwrap()));
        }
    }
}

/// The message attributes given, as text.
pub open spec fn sns_attr_views(o: Option<Table<MessageAttributeValue>>) -> Option<Map<Seq<char>, AttrView>> {
    match o {
        Some(t) => Some(t@.map_values(|a: MessageAttributeValue| attr_view(a))),
        None => None,
    }
}

/// A message attribute as text.
pub open spec fn attr_view(a: MessageAttributeValue) -> AttrView {
    AttrView {
        data_type: a.data_type@,
        string_value: opt_text(a.string_value),
        binary_value: opt_text(a.binary_value),
    }
}

/// A policy with a member that the attributes do not meet is not passed.
proof fn lemma_fails_at(ms: Seq<(Seq<char>, Option<Seq<PolicyTerm>>)>, a: Map<Seq<char>, AttrView>, i: int)
    requires
        0 <= i < ms.len(),
        !member_met(ms[i], a),
    ensures
        !policy_passes(Some(ms), Some(a)),
{
    let p = Some(ms);
    let q = Some(a);
    assert(p.unwrap() == ms);
    assert(q.unwrap() == a);
    assert(!member_met(p.unwrap()[i], q.unwrap()));
}

/// Attributes that meet every member of a policy pass it.
proof fn lemma_passes_all(ms: Seq<(Seq<char>, Option<Seq<PolicyTerm>>)>, a: Map<Seq<char>, AttrView>)
    requires
        forall|j: int| 0 <= j < ms.len() ==> #[trigger] member_met(ms[j], a),
    ensures
        policy_passes(Some(ms), Some(a)),
{
    let p = Some(ms);
    let q = Some(a);
    assert(p.unwrap() == ms);
    assert(q.unwrap() == a);
    assert forall|i: int| 0 <= i < p.unwrap().len() implies #[trigger] member_met(p.unwrap()[i], q.unwrap()) by {
        assert(member_met(ms[i], a));
    }
}

/// Whether a message with attributes `attrs` passes the filter policy `policy`.
pub fn matches_filter_policy(policy: &str, attrs: &Option<Table<MessageAttributeValue>>) -> (r: bool)
    requires
        attrs matches Some(t) ==> t.wf(),
    ensures
        r == policy_passes(filter_policy_terms(policy@), sns_attr_views(*attrs)),
{
    let parsed = parse_filter_policy(policy);
    let ms = match parsed {
        Some(ms) => ms,
        None => {
            return true;
        },
    };
    let ghost mv = policy_view(Some(ms)).unwrap();
    let a = match attrs {
        Some(a) => a,
        None => {
            return false;
        },
    };
    let ghost av = a@.map_values(|x: MessageAttributeValue| attr_view(x));
    assert(filter_policy_terms(policy@) == Some(mv));
    assert(sns_attr_views(*attrs) == Some(av));
    let mut i: usize = 0;
    while i < ms.len()
        invariant
            mv == policy_view(Some(ms)).unwrap(),
            av == a@.map_values(|x: MessageAttributeValue| attr_view(x)),
            filter_policy_terms(policy@) == Some(mv),
            sns_attr_views(*attrs) == Some(av),
            a.wf(),
            i <= ms@.len(),
            forall|j: int| 0 <= j < i ==> #[trigger] member_met(mv[j], av),
        decreases ms@.len() - i,
    {
        let key = &ms[i].0;
        let attr = match a.get(key.as_str()) {
            Some(x) => x,
            None => {
                assert(mv.len() == ms@.len());
                assert(mv[i as int].0 == key@);
                assert(!av.contains_key(key@));
                assert(!member_met(mv[i as int], av));
                proof { lemma_fails_at(mv, av, i as int); }
                return false;
            },
        };
        let text = match &attr.string_value {
            Some(s) => s,
            None => {
                assert(!member_met(mv[i as int], av));
                proof { lemma_fails_at(mv, av, i as int); }
                return false;
            },
        };
        match &ms[i].1 {
            Some(items) => {
                let ghost ts = items@.map_values(|x: PolicyValue| x@);
                let mut matched = false;
                let mut j: usize = 0;
                while j < items.len() && !matched
                    invariant
                        ts == items@.map_values(|x: PolicyValue| x@),
                        j <= items@.len(),
                        matched ==> any_admits(ts, text@),
                        !matched ==> forall|k: int| 0 <= k < j ==> !#[trigger] term_admits(ts[k], text@),
                    decreases items@.len() - j + (if matched { 0int } else { 1int }),
                {
                    let hit = match &items[j] {
                        PolicyValue::Text(s) => str_eq(s.as_str(), text.as_str()),
                        PolicyValue::Whole(n) => {
                            let d = crate::text::i64_to_string(*n);
                            str_eq(d.as_str(), text.as_str())
                        },
                        PolicyValue::Other => false,
                    };
                    assert(hit == term_admits(ts[j as int], text@));
                    if hit {
                        matched = true;
                    } else {
                        j = j + 1;
                    }
                }
                if !matched {
                    assert(!any_admits(ts, text@));
                    assert(!member_met(mv[i as int], av));
                    proof { lemma_fails_at(mv, av, i as int); }
                    return false;
                }
                assert(member_met(mv[i as int], av));
            },
            None => {
                assert(member_met(mv[i as int], av));
            },
        }
        i = i + 1;
    }
    proof {
        lemma_passes_all(mv, av);
    }
    true
}


// ---------------------------------------------------------------------------
// The service.

/// The notification service.
pub struct SnsEngine {
    topics: Table<Topic>,
    subscriptions: Table<Subscription>,
    account_id: String,
    region: String,
}

/// What a published message sends to one queue: the queue's URL, the body,
/// and the message attributes when they are passed on as they are.
pub struct Delivery {
    pub endpoint: String,
    pub body: String,
    pub attributes: Option<Table<crate::sqs::types::MessageAttributeValue>>,
}

/// A delivery as text.
pub struct DeliveryView {
    pub endpoint: Seq<char>,
    pub body: Seq<char>,
    pub attributes: Option<Map<Seq<char>, AttrView>>,
}

impl Delivery {
    pub open spec fn view(&self) -> DeliveryView {
        DeliveryView {
            endpoint: self.endpoint@,
            body: self.body@,
            attributes: match self.attributes {
                Some(t) => Some(t@.map_values(|a: crate::sqs::types::MessageAttributeValue| a@)),
                None => None,
            },
        }
    }
}

/// The signature written into every notification.
pub open spec fn signature_text() -> Seq<char> {
    "EXAMPLEpH+DcEwjAPg8O9mY8dReBSwksfg2S7WKQizmGIEePVKySt+wfNTWmww5acDxXdHobdYWWSTkXdFuTvWSukIHrZeOiKKO0cgJ3WoxARfzTJxSTeyKEqMyq8hCC2+FigPftuAVvMZCONFIGEXAMPLE="@
}

/// The JSON members of the message attributes of a notification, in key order.
pub open spec fn notification_attrs(keys: Seq<Seq<char>>, m: Map<Seq<char>, AttrView>) -> Seq<char>
    decreases keys.len(),
{
    if keys.len() == 0 {
        Seq::empty()
    } else {
        let k = keys.last();
        let v = m[k];
        let item = json_str(k) + ":{\"Type\":"@ + json_str(v.data_type) + match v.string_value {
            Some(s) => ",\"Value\":"@ + json_str(s),
            None => Seq::empty(),
        } + "}"@;
        if keys.len() == 1 {
            item
        } else {
            notification_attrs(keys.drop_last(), m) + ","@ + item
        }
    }
}

/// The JSON notification envelope a subscription receives, keys in order.
pub open spec fn notification(
    message_id: Seq<char>,
    topic_arn: Seq<char>,
    message: Seq<char>,
    timestamp: Seq<char>,
    subscription_arn: Seq<char>,
    subject: Option<Seq<char>>,
    attrs: Option<(Seq<Seq<char>>, Map<Seq<char>, AttrView>)>,
) -> Seq<char> {
    "{\"Message\":"@ + json_str(message) + match attrs {
        Some((ks, m)) => ",\"MessageAttributes\":{"@ + notification_attrs(ks, m) + "}"@,
        None => Seq::empty(),
    } + ",\"MessageId\":"@ + json_str(message_id) + ",\"Signature\":"@ + json_str(signature_text())
        + ",\"SignatureVersion\":\"1\",\"SigningCertURL\":\"https://sns.us-east-1.amazonaws.com/SimpleNotificationService.pem\""@
        + match subject {
        Some(s) => ",\"Subject\":"@ + json_str(s),
        None => Seq::empty(),
    } + ",\"Timestamp\":"@ + json_str(timestamp) + ",\"TopicArn\":"@ + json_str(topic_arn)
        + ",\"Type\":\"Notification\",\"UnsubscribeURL\":"@ + json_str(
        "http://localhost:4566/?Action=Unsubscribe&SubscriptionArn="@ + subscription_arn,
    ) + "}"@
}

/// What a message published to a topic sends, given the topic's subscriptions
/// `subs` in order: each SQS subscription whose filter policy the message
/// passes gets the message itself (raw delivery, with its attributes) or the
/// notification envelope.
pub open spec fn fanout(
    subs: Seq<SubscriptionView>,
    topic_arn: Seq<char>,
    message: Seq<char>,
    subject: Option<Seq<char>>,
    attrs: Option<Table<MessageAttributeValue>>,
    message_id: Seq<char>,
    timestamp: Seq<char>,
) -> Seq<DeliveryView>
    decreases subs.len(),
{
    if subs.len() == 0 {
        Seq::empty()
    } else {
        let rest = fanout(subs.drop_last(), topic_arn, message, subject, attrs, message_id, timestamp);
        let s = subs.last();
        let filtered = match s.filter_policy {
            Some(fp) => !policy_passes(filter_policy_terms(fp), sns_attr_views(attrs)),
            None => false,
        };
        if filtered || s.protocol != "sqs"@ {
            rest
        } else if s.raw_message_delivery {
            rest.push(
                DeliveryView {
                    endpoint: s.endpoint,
                    body: message,
                    attributes: Some(
                        match sns_attr_views(attrs) {
                            Some(m) => m,
                            None => Map::empty(),
                        },
                    ),
                },
            )
        } else {
            rest.push(
                DeliveryView {
                    endpoint: s.endpoint,
                    body: notification(
                        message_id,
                        topic_arn,
                        message,
                        timestamp,
                        s.subscription_arn,
                        subject,
                        match attrs {
                            Some(t) => Some((t.keys(), t@.map_values(|a: MessageAttributeValue| attr_view(a)))),
                            None => None,
                        },
                    ),
                    attributes: None,
                },
            )
        }
    }
}

/// The queues after deliveries `ds` are sent at `now` (milliseconds), the
/// `i`th as message `ids[i]`, each with the group and deduplication ids given;
/// a delivery to a queue that does not exist is dropped.
pub open spec fn after_deliveries(
    m: Map<Seq<char>, QueueView>,
    ds: Seq<DeliveryView>,
    ids: Seq<Seq<char>>,
    group: Option<Seq<char>>,
    dedup: Option<Seq<char>>,
    now: i64,
) -> Map<Seq<char>, QueueView>
    decreases ds.len(),
{
    if ds.len() == 0 {
        m
    } else {
        let m0 = after_deliveries(m, ds.drop_last(), ids, group, dedup, now);
        let d = ds.last();
        let name = resolved_name(d.endpoint);
        if m0.contains_key(name) {
            m0.insert(
                name,
                after_send(
                    m0[name],
                    d.body,
                    ids[ds.len() - 1],
                    None,
                    match d.attributes {
                        Some(a) => a,
                        None => Map::empty(),
                    },
                    group,
                    dedup,
                    now,
                ),
            )
        } else {
            m0
        }
    }
}

impl SnsEngine {
    /// Every topic, by ARN.
    pub closed spec fn topics(&self) -> Map<Seq<char>, TopicView> {
        self.topics@.map_values(|t: Topic| t@)
    }

    /// Every subscription, by ARN.
    pub closed spec fn subscriptions(&self) -> Map<Seq<char>, SubscriptionView> {
        self.subscriptions@.map_values(|s: Subscription| s@)
    }

    /// The ARNs of the topics, in ascending order.
    pub closed spec fn topic_arns(&self) -> Seq<Seq<char>> {
        self.topics.keys()
    }

    /// The ARNs of the subscriptions, in ascending order.
    pub closed spec fn subscription_arns(&self) -> Seq<Seq<char>> {
        self.subscriptions.keys()
    }

    /// The account the topics belong to.
    pub closed spec fn account(&self) -> Seq<char> {
        self.account_id@
    }

    /// The region the topics live in.
    pub closed spec fn home_region(&self) -> Seq<char> {
        self.region@
    }

    /// The tables are well formed, and each topic and subscription is stored
    /// under its own ARN.
    pub closed spec fn wf(&self) -> bool {
        &&& self.topics.wf()
        &&& self.subscriptions.wf()
        &&& forall|k: Seq<char>| #[trigger] self.topics@.contains_key(k) ==> self.topics@[k].arn@ == k
        &&& forall|k: Seq<char>| #[trigger]
            self.subscriptions@.contains_key(k) ==> self.subscriptions@[k].subscription_arn@ == k
    }

    /// What a well-formed service states of its tables.
    pub proof fn lemma_wf(&self)
        requires
            self.wf(),
        ensures
            forall|k: Seq<char>| self.topics().contains_key(k) <==> self.topic_arns().contains(k),
            forall|k: Seq<char>| self.subscriptions().contains_key(k) <==> self.subscription_arns().contains(k),
            forall|k: Seq<char>| #[trigger] self.topics().contains_key(k) ==> self.topics()[k].arn == k,
            forall|i: int, j: int|
                0 <= i < j < self.topic_arns().len() ==> crate::text::seq_lt(
                    #[trigger] self.topic_arns()[i],
                    #[trigger] self.topic_arns()[j],
                ),
    {
        self.topics.lemma_wf();
        self.subscriptions.lemma_wf();
        assert forall|k: Seq<char>| self.topics().contains_key(k) <==> self.topic_arns().contains(k) by {
            if self.topics().contains_key(k) {
                let i = choose|i: int| 0 <= i < self.topics.keys().len() && self.topics.keys()[i] == k;
                assert(self.topic_arns()[i] == k);
            }
            if self.topic_arns().contains(k) {
                let i = choose|i: int| 0 <= i < self.topic_arns().len() && self.topic_arns()[i] == k;
                assert(self.topics@.contains_key(self.topics.keys()[i]));
            }
        }
        assert forall|k: Seq<char>| self.subscriptions().contains_key(k) <==> self.subscription_arns().contains(k) by {
            if self.subscriptions().contains_key(k) {
                let i = choose|i: int|
                    0 <= i < self.subscriptions.keys().len() && self.subscriptions.keys()[i] == k;
                assert(self.subscription_arns()[i] == k);
            }
            if self.subscription_arns().contains(k) {
                let i = choose|i: int| 0 <= i < self.subscription_arns().len() && self.subscription_arns()[i] == k;
                assert(self.subscriptions@.contains_key(self.subscriptions.keys()[i]));
            }
        }
    }

    /// An empty service for an account and region.
    pub fn new(account_id: String, region: String) -> (e: Self)
        ensures
            e.wf(),
            e.topics() == Map::<Seq<char>, TopicView>::empty(),
            e.subscriptions() == Map::<Seq<char>, SubscriptionView>::empty(),
            e.account() == account_id@,
            e.home_region() == region@,
    {
        let e = SnsEngine { topics: Table::new(), subscriptions: Table::new(), account_id, region };
        assert(e.topics() =~= Map::<Seq<char>, TopicView>::empty());
        assert(e.subscriptions() =~= Map::<Seq<char>, SubscriptionView>::empty());
        e
    }

    /// The ARN of topic `name`.
    pub open spec fn topic_arn_of(&self, name: Seq<char>) -> Seq<char> {
        "arn:aws:sns:"@ + self.home_region() + ":"@ + self.account() + ":"@ + name
    }

    /// The ARN of a topic.
    pub fn format_topic_arn(&self, name: &str) -> (r: String)
        ensures
            r@ == self.topic_arn_of(name@),
    {
        let mut s = String::new();
        append(&mut s, "arn:aws:sns:");
        append(&mut s, self.region.as_str());
        append(&mut s, ":");
        append(&mut s, self.account_id.as_str());
        append(&mut s, ":");
        append(&mut s, name);
        assert(s@ =~= self.topic_arn_of(name@));
        s
    }

    /// The ARN of subscription `sub_id` to topic `topic_name`.
    pub open spec fn subscription_arn_of(&self, topic_name: Seq<char>, sub_id: Seq<char>) -> Seq<char> {
        self.topic_arn_of(topic_name) + ":"@ + sub_id
    }

    /// The ARN of a subscription.
    pub fn format_subscription_arn(&self, topic_name: &str, sub_id: &str) -> (r: String)
        ensures
            r@ == self.subscription_arn_of(topic_name@, sub_id@),
    {
        let mut s = self.format_topic_arn(topic_name);
        append(&mut s, ":");
        append(&mut s, sub_id);
        assert(s@ =~= self.subscription_arn_of(topic_name@, sub_id@));
        s
    }

    fn topic_missing(arn: &str) -> (e: SnsError)
        ensures
            no_topic(e, arn@),
    {
        let mut m = String::new();
        append(&mut m, "Topic does not exist: ");
        append(&mut m, arn);
        SnsError { kind: SnsErrorKind::NotFound, message: m }
    }

    fn subscription_missing(arn: &str) -> (e: SnsError)
        ensures
            no_subscription(e, arn@),
    {
        let mut m = String::new();
        append(&mut m, "Subscription does not exist: ");
        append(&mut m, arn);
        SnsError { kind: SnsErrorKind::NotFound, message: m }
    }

    /// Creates a topic, or gives the ARN of the one already there.
    pub fn create_topic(&mut self, name: &str, attributes: Option<Table<String>>) -> (r: Result<String, SnsError>)
        requires
            old(self).wf(),
            attributes matches Some(a) ==> a.wf(),
        ensures
            topic_created(*old(self), *final(self), name@, attributes, r),
    {
        let arn = self.format_topic_arn(name);
        if self.topics.contains(arn.as_str()) {
            return Ok(arn);
        }
        let mut settings = TopicAttributes::empty();
        settings.is_fifo = ends_with(name, ".fifo");
        let ghost a = opt_texts(attributes);
        match &attributes {
            Some(t) => {
                match t.get("DisplayName") {
                    Some(v) => {
                        settings.display_name = Some(v.clone());
                    },
                    None => {},
                }
                match t.get("FifoTopic") {
                    Some(v) => {
                        settings.is_fifo = eq_ignore_ascii_case(v.as_str(), "true");
                    },
                    None => {},
                }
                match t.get("ContentBasedDeduplication") {
                    Some(v) => {
                        settings.content_based_deduplication = eq_ignore_ascii_case(v.as_str(), "true");
                    },
                    None => {},
                }
                match t.get("KmsMasterKeyId") {
                    Some(v) => {
                        settings.kms_master_key_id = Some(v.clone());
                    },
                    None => {},
                }
                match t.get("Policy") {
                    Some(v) => {
                        settings.policy = Some(v.clone());
                    },
                    None => {},
                }
                match t.get("DeliveryPolicy") {
                    Some(v) => {
                        settings.delivery_policy = Some(v.clone());
                    },
                    None => {},
                }
            },
            None => {},
        }
        assert(settings@ == created_topic_settings(name@, a));
        let topic = Topic {
            arn: arn.clone(),
            name: copy_str(name),
            attributes: settings,
            created_timestamp: now_seconds(),
        };
        let ghost tv = topic;
        self.topics.insert(arn.clone(), topic);
        proof {
            lemma_map_values_insert(old(self).topics@, arn@, tv, |t: Topic| t@);
        }
        Ok(arn)
    }

    /// Deletes a topic and every subscription to it.
    pub fn delete_topic(&mut self, topic_arn: &str) -> (r: Result<(), SnsError>)
        requires
            old(self).wf(),
        ensures
            topic_deleted(*old(self), *final(self), topic_arn@, r),
    {
        match self.topics.remove(topic_arn) {
            Some(_) => {},
            None => {
                return Err(Self::topic_missing(topic_arn));
            },
        }
        proof {
            lemma_map_values_remove(old(self).topics@, topic_arn@, |t: Topic| t@);
        }
        let n = self.subscriptions.len();
        proof {
            self.subscriptions.lemma_wf();
        }
        let ghost ks = self.subscriptions.keys();
        let ghost sv = self.subscriptions();
        let mut kept: Table<Subscription> = Table::new();
        let mut i: usize = 0;
        while i < n
            invariant
                self.subscriptions.wf(),
                ks == self.subscriptions.keys(),
                sv == self.subscriptions(),
                n == ks.len(),
                i <= n,
                forall|j: int|
                    0 <= j < n ==> #[trigger] self.subscriptions@.contains_key(ks[j])
                        && self.subscriptions@[ks[j]] == self.subscriptions.vals()[j],
                forall|k: Seq<char>|
                    #[trigger] self.subscriptions@.contains_key(k) ==> self.subscriptions@[k].subscription_arn@ == k,
                kept.wf(),
                forall|k: Seq<char>|
                    #[trigger] kept@.contains_key(k) ==> sv.contains_key(k) && sv[k].topic_arn != topic_arn@
                        && kept@[k]@ == sv[k] && kept@[k].subscription_arn@ == k,
                forall|j: int|
                    0 <= j < i && sv[ks[j]].topic_arn != topic_arn@ ==> kept@.contains_key(#[trigger] ks[j]),
            decreases n - i,
        {
            let (k, s) = self.subscriptions.entry(i);
            proof {
                assert(self.subscriptions@.contains_key(ks[i as int]));
            }
            if !str_eq(s.topic_arn.as_str(), topic_arn) {
                kept.insert(k.clone(), s.copy());
            }
            i = i + 1;
        }
        proof {
            assert forall|k: Seq<char>|
                sv.contains_key(k) && sv[k].topic_arn != topic_arn@ implies #[trigger] kept@.contains_key(k) by {
                let j = choose|j: int| 0 <= j < ks.len() && ks[j] == k;
                assert(kept@.contains_key(ks[j]));
            }
        }
        self.subscriptions = kept;
        proof {
            assert(self.subscriptions() =~= Map::new(
                |k: Seq<char>| sv.contains_key(k) && sv[k].topic_arn != topic_arn@,
                |k: Seq<char>| sv[k],
            ));
        }
        Ok(())
    }

    /// The ARNs of the topics, in ascending order.
    pub fn list_topics(&self) -> (r: Result<Vec<String>, SnsError>)
        requires
            self.wf(),
        ensures
            r matches Ok(v) && crate::text::views(v@) == self.topic_arns(),
    {
        Ok(self.topics.key_list())
    }

    /// How many subscriptions topic `arn` has.
    fn subscription_count(&self, arn: &str) -> (n: u64)
        requires
            self.wf(),
        ensures
            n == count_for(self.subscription_arns(), self.subscriptions(), arn@),
    {
        let len = self.subscriptions.len();
        proof {
            self.subscriptions.lemma_wf();
        }
        let ghost ks = self.subscriptions.keys();
        let mut n: u64 = 0;
        let mut i: usize = 0;
        while i < len
            invariant
                self.wf(),
                ks == self.subscriptions.keys(),
                len == ks.len(),
                i <= len,
                n <= i,
                forall|j: int|
                    0 <= j < len ==> #[trigger] self.subscriptions@.contains_key(ks[j])
                        && self.subscriptions@[ks[j]] == self.subscriptions.vals()[j],
                n == count_for(ks.subrange(0, i as int), self.subscriptions(), arn@),
            decreases len - i,
        {
            let (_, s) = self.subscriptions.entry(i);
            proof {
                assert(ks.subrange(0, i + 1).drop_last() =~= ks.subrange(0, i as int));
                assert(self.subscriptions@.contains_key(ks[i as int]));
            }
            if str_eq(s.topic_arn.as_str(), arn) {
                n = n + 1;
            }
            i = i + 1;
        }
        assert(ks.subrange(0, len as int) =~= ks);
        n
    }

    /// The attributes of a topic.
    #[verifier::rlimit(40)]
    pub fn get_topic_attributes(&self, topic_arn: &str) -> (r: Result<Table<String>, SnsError>)
        requires
            self.wf(),
        ensures
            self.topics().contains_key(topic_arn@) ==> (r matches Ok(t) && t.wf() && texts(t) == topic_attribute_map(
                self.topics()[topic_arn@],
                self.account(),
                count_for(self.subscription_arns(), self.subscriptions(), topic_arn@),
            )),
            !self.topics().contains_key(topic_arn@) ==> (r matches Err(e) && no_topic(e, topic_arn@)),
    {
        let topic = match self.topics.get(topic_arn) {
            Some(t) => t,
            None => {
                return Err(Self::topic_missing(topic_arn));
            },
        };
        let n = self.subscription_count(topic_arn);
        let mut t: Table<String> = Table::new();
        t.insert(copy_str("TopicArn"), topic.arn.clone());
        t.insert(copy_str("Owner"), self.account_id.clone());
        t.insert(copy_str("SubscriptionsConfirmed"), crate::text::u64_to_string(n));
        t.insert(copy_str("SubscriptionsPending"), copy_str("0"));
        t.insert(copy_str("SubscriptionsDeleted"), copy_str("0"));
        let ghost m0 = texts(t);
        proof {
            assert(m0 =~= Map::empty().insert("TopicArn"@, topic.arn@).insert("Owner"@, self.account_id@).insert(
                "SubscriptionsConfirmed"@,
                decimal(n as nat),
            ).insert("SubscriptionsPending"@, "0"@).insert("SubscriptionsDeleted"@, "0"@));
        }
        let s = &topic.attributes;
        put_text(&mut t, s.display_name.is_some(), "DisplayName", match &s.display_name {
            Some(d) => d.clone(),
            None => String::new(),
        });
        put_text(&mut t, s.is_fifo, "FifoTopic", copy_str("true"));
        put_text(
            &mut t,
            s.is_fifo,
            "ContentBasedDeduplication",
            if s.content_based_deduplication { copy_str("true") } else { copy_str("false") },
        );
        put_text(&mut t, s.policy.is_some(), "Policy", match &s.policy {
            Some(p) => p.clone(),
            None => String::new(),
        });
        Ok(t)
    }

    /// Sets one attribute of a topic; an unknown attribute is ignored.
    pub fn set_topic_attributes(&mut self, topic_arn: &str, attribute_name: &str, attribute_value: &str) -> (r:
        Result<(), SnsError>)
        requires
            old(self).wf(),
        ensures
            topic_attribute_set(*old(self), *final(self), topic_arn@, attribute_name@, attribute_value@, r),
    {
        let mut topic = match self.topics.remove(topic_arn) {
            Some(t) => t,
            None => {
                return Err(Self::topic_missing(topic_arn));
            },
        };
        let ghost t0 = topic@;
        let v = copy_str(attribute_value);
        if str_eq(attribute_name, "DisplayName") {
            topic.attributes.display_name = Some(v);
        } else if str_eq(attribute_name, "Policy") {
            topic.attributes.policy = Some(v);
        } else if str_eq(attribute_name, "DeliveryPolicy") {
            topic.attributes.delivery_policy = Some(v);
        } else if str_eq(attribute_name, "ContentBasedDeduplication") {
            topic.attributes.content_based_deduplication = eq_ignore_ascii_case(attribute_value, "true");
        } else if str_eq(attribute_name, "KmsMasterKeyId") {
            topic.attributes.kms_master_key_id = Some(v);
        }
        assert(topic@ == (TopicView {
            attributes: topic_setting_set(t0.attributes, attribute_name@, attribute_value@),
            ..t0
        }));
        let ghost tv = topic;
        self.topics.insert(copy_str(topic_arn), topic);
        proof {
            lemma_map_values_insert(old(self).topics@.remove(topic_arn@), topic_arn@, tv, |t: Topic| t@);
            assert(old(self).topics@.remove(topic_arn@).insert(topic_arn@, tv) =~= old(self).topics@.insert(
                topic_arn@,
                tv,
            ));
            lemma_map_values_insert(old(self).topics@, topic_arn@, tv, |t: Topic| t@);
        }
        Ok(())
    }
}

/// A subscription made to topic `topic_arn` under ARN `arn`.
pub open spec fn new_subscription(
    topic_arn: Seq<char>,
    protocol: Seq<char>,
    endpoint: Seq<char>,
    a: Map<Seq<char>, Seq<char>>,
    arn: Seq<char>,
    owner: Seq<char>,
) -> SubscriptionView {
    SubscriptionView {
        subscription_arn: arn,
        topic_arn,
        protocol: lower_seq(protocol),
        endpoint,
        owner,
        raw_message_delivery: flag_setting(a, "RawMessageDelivery"@, false),
        filter_policy: text_setting(a, "FilterPolicy"@, None),
        redrive_policy: text_setting(a, "RedrivePolicy"@, None),
    }
}

/// A sequence is no longer than the one it was filtered from.
proof fn lemma_subs_for_len(keys: Seq<Seq<char>>, subs: Map<Seq<char>, SubscriptionView>, arn: Option<Seq<char>>)
    ensures
        subs_for(keys, subs, arn).len() <= keys.len(),
    decreases keys.len(),
{
    if keys.len() > 0 {
        lemma_subs_for_len(keys.drop_last(), subs, arn);
    }
}

/// A fan-out sends at most once per subscription.
proof fn lemma_fanout_len(
    subs: Seq<SubscriptionView>,
    topic_arn: Seq<char>,
    message: Seq<char>,
    subject: Option<Seq<char>>,
    attrs: Option<Table<MessageAttributeValue>>,
    message_id: Seq<char>,
    timestamp: Seq<char>,
)
    ensures
        fanout(subs, topic_arn, message, subject, attrs, message_id, timestamp).len() <= subs.len(),
    decreases subs.len(),
{
    if subs.len() > 0 {
        lemma_fanout_len(subs.drop_last(), topic_arn, message, subject, attrs, message_id, timestamp);
    }
}

/// The notification attributes of a table, in key order.
fn put_notification_attrs(x: &mut String, t: &Table<MessageAttributeValue>)
    requires
        t.wf(),
    ensures
        final(x)@ == old(x)@ + notification_attrs(t.keys(), t@.map_values(|a: MessageAttributeValue| attr_view(a))),
{
    let n = t.len();
    proof {
        t.lemma_wf();
    }
    let ghost ks = t.keys();
    let ghost mv = t@.map_values(|a: MessageAttributeValue| attr_view(a));
    let mut i: usize = 0;
    assert(ks.subrange(0, 0) =~= Seq::<Seq<char>>::empty());
    while i < n
        invariant
            t.wf(),
            ks == t.keys(),
            mv == t@.map_values(|a: MessageAttributeValue| attr_view(a)),
            n == ks.len(),
            i <= n,
            forall|j: int| 0 <= j < n ==> #[trigger] t@.contains_key(ks[j]) && t@[ks[j]] == t.vals()[j],
            x@ == old(x)@ + notification_attrs(ks.subrange(0, i as int), mv),
        decreases n - i,
    {
        let (k, v) = t.entry(i);
        proof {
            assert(ks.subrange(0, i + 1).drop_last() =~= ks.subrange(0, i as int));
            assert(t@.contains_key(ks[i as int]));
            assert(mv[ks[i as int]] == attr_view(*v));
        }
        if i > 0 {
            append(x, ",");
        }
        append_json_str(x, k.as_str());
        append(x, ":{\"Type\":");
        append_json_str(x, v.data_type.as_str());
        match &v.string_value {
            Some(sv) => {
                append(x, ",\"Value\":");
                append_json_str(x, sv.as_str());
            },
            None => {},
        }
        append(x, "}");
        i = i + 1;
        assert(x@ =~= old(x)@ + notification_attrs(ks.subrange(0, i as int), mv));
    }
    assert(ks.subrange(0, n as int) =~= ks);
}

/// The notification envelope of a message for one subscription.
#[verifier::spinoff_prover]
#[verifier::rlimit(40)]
pub fn notification_text(
    message_id: &str,
    topic_arn: &str,
    message: &str,
    timestamp: &str,
    subscription_arn: &str,
    subject: &Option<String>,
    attrs: &Option<Table<MessageAttributeValue>>,
) -> (r: String)
    requires
        attrs matches Some(t) ==> t.wf(),
    ensures
        r@ == notification(
            message_id@,
            topic_arn@,
            message@,
            timestamp@,
            subscription_arn@,
            opt_text(*subject),
            match *attrs {
                Some(t) => Some((t.keys(), t@.map_values(|a: MessageAttributeValue| attr_view(a)))),
                None => None,
            },
        ),
{
    let mut x = String::new();
    append(&mut x, "{\"Message\":");
    append_json_str(&mut x, message);
    match attrs {
        Some(t) => {
            append(&mut x, ",\"MessageAttributes\":{");
            put_notification_attrs(&mut x, t);
            append(&mut x, "}");
        },
        None => {},
    }
    append(&mut x, ",\"MessageId\":");
    append_json_str(&mut x, message_id);
    append(&mut x, ",\"Signature\":");
    append_json_str(
        &mut x,
        "EXAMPLEpH+DcEwjAPg8O9mY8dReBSwksfg2S7WKQizmGIEePVKySt+wfNTWmww5acDxXdHobdYWWSTkXdFuTvWSukIHrZeOiKKO0cgJ3WoxARfzTJxSTeyKEqMyq8hCC2+FigPftuAVvMZCONFIGEXAMPLE=",
    );
    append(
        &mut x,
        ",\"SignatureVersion\":\"1\",\"SigningCertURL\":\"https://sns.us-east-1.amazonaws.com/SimpleNotificationService.pem\"",
    );
    match subject {
        Some(s) => {
            append(&mut x, ",\"Subject\":");
            append_json_str(&mut x, s.as_str());
        },
        None => {},
    }
    append(&mut x, ",\"Timestamp\":");
    append_json_str(&mut x, timestamp);
    append(&mut x, ",\"TopicArn\":");
    append_json_str(&mut x, topic_arn);
    append(&mut x, ",\"Type\":\"Notification\",\"UnsubscribeURL\":");
    let mut u = String::new();
    append(&mut u, "http://localhost:4566/?Action=Unsubscribe&SubscriptionArn=");
    append(&mut u, subscription_arn);
    append_json_str(&mut x, u.as_str());
    append(&mut x, "}");
    assert(x@ =~= notification(
        message_id@,
        topic_arn@,
        message@,
        timestamp@,
        subscription_arn@,
        opt_text(*subject),
        match *attrs {
            Some(t) => Some((t.keys(), t@.map_values(|a: MessageAttributeValue| attr_view(a)))),
            None => None,
        },
    ));
    x
}

/// The message attributes as the queue service holds them.
fn to_queue_attrs(t: &Option<Table<MessageAttributeValue>>) -> (r: Table<crate::sqs::types::MessageAttributeValue>)
    requires
        t matches Some(a) ==> a.wf(),
    ensures
        r.wf(),
        r@.map_values(|a: crate::sqs::types::MessageAttributeValue| a@) == match sns_attr_views(*t) {
            Some(m) => m,
            None => Map::empty(),
        },
{
    let mut r: Table<crate::sqs::types::MessageAttributeValue> = Table::new();
    match t {
        None => {
            assert(r@.map_values(|a: crate::sqs::types::MessageAttributeValue| a@) =~= Map::<
                Seq<char>,
                AttrView,
            >::empty());
            r
        },
        Some(a) => {
            let n = a.len();
            proof {
                a.lemma_wf();
            }
            let ghost ks = a.keys();
            let ghost mv = a@.map_values(|x: MessageAttributeValue| attr_view(x));
            let mut i: usize = 0;
            while i < n
                invariant
                    a.wf(),
                    r.wf(),
                    ks == a.keys(),
                    mv == a@.map_values(|x: MessageAttributeValue| attr_view(x)),
                    n == ks.len(),
                    i <= n,
                    forall|j: int| 0 <= j < n ==> #[trigger] a@.contains_key(ks[j]) && a@[ks[j]] == a.vals()[j],
                    forall|k: Seq<char>| #[trigger] a@.contains_key(k) ==> exists|j: int| 0 <= j < n && ks[j] == k,
                    forall|k: Seq<char>|
                        #[trigger] r@.contains_key(k) ==> mv.contains_key(k) && r@[k]@ == mv[k],
                    forall|j: int| 0 <= j < i ==> r@.contains_key(#[trigger] ks[j]),
                decreases n - i,
            {
                let (k, v) = a.entry(i);
                proof {
                    assert(a@.contains_key(ks[i as int]));
                }
                r.insert(
                    k.clone(),
                    crate::sqs::types::MessageAttributeValue {
                        data_type: v.data_type.clone(),
                        string_value: copy_opt(&v.string_value),
                        binary_value: copy_opt(&v.binary_value),
                    },
                );
                i = i + 1;
            }
            proof {
                assert forall|k: Seq<char>| #[trigger] mv.contains_key(k) implies r@.contains_key(k) by {
                    let j = choose|j: int| 0 <= j < n && ks[j] == k;
                    assert(r@.contains_key(ks[j]));
                }
                assert(r@.map_values(|a: crate::sqs::types::MessageAttributeValue| a@) =~= mv);
            }
            r
        },
    }
}

impl SnsEngine {
    /// Subscribes an endpoint to a topic under subscription id `sub_id`.
    pub fn subscribe_at(
        &mut self,
        topic_arn: &str,
        protocol: &str,
        endpoint: &str,
        attributes: Option<Table<String>>,
        sub_id: &str,
    ) -> (r: Result<String, SnsError>)
        requires
            old(self).wf(),
            attributes matches Some(a) ==> a.wf(),
        ensures
            final(self).wf(),
            final(self).account() == old(self).account(),
            final(self).home_region() == old(self).home_region(),
            final(self).topics() == old(self).topics(),
            old(self).topics().contains_key(topic_arn@) ==> {
                let arn = old(self).subscription_arn_of(last_segment(topic_arn@), sub_id@);
                &&& r matches Ok(a) && a@ == arn
                &&& final(self).subscriptions() == old(self).subscriptions().insert(
                    arn,
                    new_subscription(topic_arn@, protocol@, endpoint@, opt_texts(attributes), arn, old(self).account()),
                )
            },
            !old(self).topics().contains_key(topic_arn@) ==> (r matches Err(e) && no_topic(e, topic_arn@)
                && final(self).subscriptions() == old(self).subscriptions()),
    {
        if !self.topics.contains(topic_arn) {
            return Err(Self::topic_missing(topic_arn));
        }
        let topic_name = crate::text::after_last_char(topic_arn, ':');
        let arn = self.format_subscription_arn(topic_name.as_str(), sub_id);
        let ghost a = opt_texts(attributes);
        let mut raw = false;
        let mut filter: Option<String> = None;
        let mut redrive: Option<String> = None;
        match &attributes {
            Some(t) => {
                match t.get("RawMessageDelivery") {
                    Some(x) => {
                        raw = eq_ignore_ascii_case(x.as_str(), "true");
                    },
                    None => {},
                }
                match t.get("FilterPolicy") {
                    Some(x) => {
                        filter = Some(x.clone());
                    },
                    None => {},
                }
                match t.get("RedrivePolicy") {
                    Some(x) => {
                        redrive = Some(x.clone());
                    },
                    None => {},
                }
            },
            None => {},
        }
        let sub = Subscription {
            subscription_arn: arn.clone(),
            topic_arn: copy_str(topic_arn),
            protocol: to_ascii_lowercase(protocol),
            endpoint: copy_str(endpoint),
            owner: self.account_id.clone(),
            attributes: SubscriptionAttributes { raw_message_delivery: raw, filter_policy: filter, redrive_policy: redrive },
        };
        assert(sub@ == new_subscription(topic_arn@, protocol@, endpoint@, a, arn@, self.account()));
        let ghost sv = sub;
        self.subscriptions.insert(arn.clone(), sub);
        proof {
            lemma_map_values_insert(old(self).subscriptions@, arn@, sv, |s: Subscription| s@);
        }
        Ok(arn)
    }

    /// Subscribes an endpoint to a topic under a fresh subscription id.
    pub fn subscribe(&mut self, topic_arn: &str, protocol: &str, endpoint: &str, attributes: Option<Table<String>>) -> (r:
        Result<String, SnsError>)
        requires
            old(self).wf(),
            attributes matches Some(a) ==> a.wf(),
        ensures
            subscribed(*old(self), *final(self), topic_arn@, protocol@, endpoint@, attributes, r),
    {
        let id = new_uuid();
        self.subscribe_at(topic_arn, protocol, endpoint, attributes, id.as_str())
    }

    /// Drops a subscription.
    pub fn unsubscribe(&mut self, subscription_arn: &str) -> (r: Result<(), SnsError>)
        requires
            old(self).wf(),
        ensures
            unsubscribed(*old(self), *final(self), subscription_arn@, r),
    {
        let r = self.subscriptions.remove(subscription_arn);
        proof {
            lemma_map_values_remove(old(self).subscriptions@, subscription_arn@, |s: Subscription| s@);
        }
        match r {
            Some(_) => Ok(()),
            None => Err(Self::subscription_missing(subscription_arn)),
        }
    }

    /// The subscriptions (to topic `arn`, or all), in ARN order.
    fn subscriptions_for(&self, arn: Option<&str>) -> (r: Vec<Subscription>)
        requires
            self.wf(),
        ensures
            r@.map_values(|s: Subscription| s@) == subs_for(
                self.subscription_arns(),
                self.subscriptions(),
                match arn {
                    Some(a) => Some(a@),
                    None => None,
                },
            ),
    {
        let ghost av: Option<Seq<char>> = match arn {
            Some(a) => Some(a@),
            None => None,
        };
        let n = self.subscriptions.len();
        proof {
            self.subscriptions.lemma_wf();
        }
        let ghost ks = self.subscriptions.keys();
        let mut r: Vec<Subscription> = Vec::new();
        let mut i: usize = 0;
        while i < n
            invariant
                self.wf(),
                av == (match arn {
                    Some(a) => Some(a@),
                    None => None::<Seq<char>>,
                }),
                ks == self.subscriptions.keys(),
                n == ks.len(),
                i <= n,
                forall|j: int|
                    0 <= j < n ==> #[trigger] self.subscriptions@.contains_key(ks[j])
                        && self.subscriptions@[ks[j]] == self.subscriptions.vals()[j],
                r@.map_values(|s: Subscription| s@) == subs_for(ks.subrange(0, i as int), self.subscriptions(), av),
            decreases n - i,
        {
            let (_, s) = self.subscriptions.entry(i);
            proof {
                assert(ks.subrange(0, i + 1).drop_last() =~= ks.subrange(0, i as int));
                assert(self.subscriptions@.contains_key(ks[i as int]));
            }
            let keep = match arn {
                Some(a) => str_eq(s.topic_arn.as_str(), a),
                None => true,
            };
            let ghost before = r@;
            if keep {
                r.push(s.copy());
                assert(r@.map_values(|s: Subscription| s@) =~= before.map_values(|s: Subscription| s@).push(
                    self.subscriptions()[ks[i as int]],
                ));
            }
            i = i + 1;
        }
        assert(ks.subrange(0, n as int) =~= ks);
        r
    }

    /// Every subscription, in ARN order.
    pub fn list_subscriptions(&self) -> (r: Result<Vec<Subscription>, SnsError>)
        requires
            self.wf(),
        ensures
            r matches Ok(v) && v@.map_values(|s: Subscription| s@) == subs_for(
                self.subscription_arns(),
                self.subscriptions(),
                None,
            ),
    {
        Ok(self.subscriptions_for(None))
    }

    /// The subscriptions to a topic, in ARN order.
    pub fn list_subscriptions_by_topic(&self, topic_arn: &str) -> (r: Result<Vec<Subscription>, SnsError>)
        requires
            self.wf(),
        ensures
            self.topics().contains_key(topic_arn@) ==> (r matches Ok(v) && v@.map_values(|s: Subscription| s@)
                == subs_for(self.subscription_arns(), self.subscriptions(), Some(topic_arn@))),
            !self.topics().contains_key(topic_arn@) ==> (r matches Err(e) && no_topic(e, topic_arn@)),
    {
        if !self.topics.contains(topic_arn) {
            return Err(Self::topic_missing(topic_arn));
        }
        Ok(self.subscriptions_for(Some(topic_arn)))
    }

    /// The attributes of a subscription.
    pub fn get_subscription_attributes(&self, subscription_arn: &str) -> (r: Result<Table<String>, SnsError>)
        requires
            self.wf(),
        ensures
            self.subscriptions().contains_key(subscription_arn@) ==> (r matches Ok(t) && t.wf() && texts(t)
                == subscription_attribute_map(self.subscriptions()[subscription_arn@])),
            !self.subscriptions().contains_key(subscription_arn@) ==> (r matches Err(e) && no_subscription(
                e,
                subscription_arn@,
            )),
    {
        let sub = match self.subscriptions.get(subscription_arn) {
            Some(s) => s,
            None => {
                return Err(Self::subscription_missing(subscription_arn));
            },
        };
        let mut t: Table<String> = Table::new();
        t.insert(copy_str("SubscriptionArn"), sub.subscription_arn.clone());
        t.insert(copy_str("TopicArn"), sub.topic_arn.clone());
        t.insert(copy_str("Protocol"), sub.protocol.clone());
        t.insert(copy_str("Endpoint"), sub.endpoint.clone());
        t.insert(copy_str("Owner"), sub.owner.clone());
        t.insert(
            copy_str("RawMessageDelivery"),
            if sub.attributes.raw_message_delivery { copy_str("true") } else { copy_str("false") },
        );
        let ghost sv = sub@;
        proof {
            assert(texts(t) =~= Map::empty().insert("SubscriptionArn"@, sv.subscription_arn).insert(
                "TopicArn"@,
                sv.topic_arn,
            ).insert("Protocol"@, sv.protocol).insert("Endpoint"@, sv.endpoint).insert("Owner"@, sv.owner).insert(
                "RawMessageDelivery"@,
                if sv.raw_message_delivery {
                    "true"@
                } else {
                    "false"@
                },
            ));
        }
        put_text(&mut t, sub.attributes.filter_policy.is_some(), "FilterPolicy", match &sub.attributes.filter_policy {
            Some(f) => f.clone(),
            None => String::new(),
        });
        put_text(&mut t, sub.attributes.redrive_policy.is_some(), "RedrivePolicy", match &sub.attributes.redrive_policy {
            Some(f) => f.clone(),
            None => String::new(),
        });
        Ok(t)
    }

    /// Sets one attribute of a subscription; an unknown attribute is ignored.
    pub fn set_subscription_attributes(
        &mut self,
        subscription_arn: &str,
        attribute_name: &str,
        attribute_value: &str,
    ) -> (r: Result<(), SnsError>)
        requires
            old(self).wf(),
        ensures
            subscription_attribute_set(*old(self), *final(self), subscription_arn@, attribute_name@, attribute_value@, r),
    {
        let mut sub = match self.subscriptions.remove(subscription_arn) {
            Some(s) => s,
            None => {
                return Err(Self::subscription_missing(subscription_arn));
            },
        };
        let ghost s0 = sub@;
        if str_eq(attribute_name, "RawMessageDelivery") {
            sub.attributes.raw_message_delivery = eq_ignore_ascii_case(attribute_value, "true");
        } else if str_eq(attribute_name, "FilterPolicy") {
            sub.attributes.filter_policy = Some(copy_str(attribute_value));
        } else if str_eq(attribute_name, "RedrivePolicy") {
            sub.attributes.redrive_policy = Some(copy_str(attribute_value));
        }
        assert(sub@ == subscription_setting_set(s0, attribute_name@, attribute_value@));
        let ghost sv = sub;
        self.subscriptions.insert(copy_str(subscription_arn), sub);
        proof {
            lemma_map_values_insert(old(self).subscriptions@.remove(subscription_arn@), subscription_arn@, sv, |s: Subscription| s@);
            assert(old(self).subscriptions@.remove(subscription_arn@).insert(subscription_arn@, sv) =~= old(
                self,
            ).subscriptions@.insert(subscription_arn@, sv));
            lemma_map_values_insert(old(self).subscriptions@, subscription_arn@, sv, |s: Subscription| s@);
        }
        Ok(())
    }
}

impl SnsEngine {
    /// What a message published to topic `topic_arn` sends, subscription by
    /// subscription in ARN order.
    pub fn deliveries(
        &self,
        topic_arn: &str,
        message: &str,
        subject: &Option<String>,
        attrs: &Option<Table<MessageAttributeValue>>,
        message_id: &str,
        timestamp: &str,
    ) -> (r: Vec<Delivery>)
        requires
            self.wf(),
            attrs matches Some(t) ==> t.wf(),
        ensures
            r@.map_values(|d: Delivery| d@) == fanout(
                subs_for(self.subscription_arns(), self.subscriptions(), Some(topic_arn@)),
                topic_arn@,
                message@,
                opt_text(*subject),
                *attrs,
                message_id@,
                timestamp@,
            ),
            forall|i: int| 0 <= i < r@.len() ==> ((#[trigger] r@[i]).attributes matches Some(t) ==> t.wf()),
    {
        let subs = self.subscriptions_for(Some(topic_arn));
        let ghost sv = subs@.map_values(|s: Subscription| s@);
        let mut r: Vec<Delivery> = Vec::new();
        let mut i: usize = 0;
        assert(sv.take(0) =~= Seq::<SubscriptionView>::empty());
        while i < subs.len()
            invariant
                sv == subs@.map_values(|s: Subscription| s@),
                i <= subs@.len(),
                attrs matches Some(t) ==> t.wf(),
                r@.map_values(|d: Delivery| d@) == fanout(
                    sv.take(i as int),
                    topic_arn@,
                    message@,
                    opt_text(*subject),
                    *attrs,
                    message_id@,
                    timestamp@,
                ),
                forall|j: int| 0 <= j < r@.len() ==> ((#[trigger] r@[j]).attributes matches Some(t) ==> t.wf()),
            decreases subs@.len() - i,
        {
            let sub = &subs[i];
            proof {
                assert(sv.take(i + 1).drop_last() =~= sv.take(i as int));
                assert(sv.take(i + 1).last() == sub@);
            }
            let filtered = match &sub.attributes.filter_policy {
                Some(fp) => !matches_filter_policy(fp.as_str(), attrs),
                None => false,
            };
            let ghost before = r@;
            if filtered || !str_eq(sub.protocol.as_str(), "sqs") {
            } else if sub.attributes.raw_message_delivery {
                let d = Delivery { endpoint: sub.endpoint.clone(), body: copy_str(message), attributes: Some(to_queue_attrs(attrs)) };
                r.push(d);
                assert(r@.map_values(|d: Delivery| d@) =~= before.map_values(|d: Delivery| d@).push(r@.last()@));
            } else {
                let body = notification_text(
                    message_id,
                    topic_arn,
                    message,
                    timestamp,
                    sub.subscription_arn.as_str(),
                    subject,
                    attrs,
                );
                let d = Delivery { endpoint: sub.endpoint.clone(), body, attributes: None };
                r.push(d);
                assert(r@.map_values(|d: Delivery| d@) =~= before.map_values(|d: Delivery| d@).push(r@.last()@));
            }
            i = i + 1;
        }
        assert(sv.take(subs@.len() as int) =~= sv);
        r
    }

    /// Publishes a message with id `message_id` to a topic at `timestamp`
    /// (RFC 3339): sends it to each subscribed queue, at `now` (milliseconds),
    /// the `i`th delivery as queue message `ids[i]`. Gives the message id and,
    /// for a FIFO topic, a sequence number.
    pub fn publish_at(
        &self,
        queues: &mut SqsEngine,
        topic_arn: &str,
        message: String,
        subject: Option<String>,
        message_attributes: Option<Table<MessageAttributeValue>>,
        message_deduplication_id: Option<String>,
        message_group_id: Option<String>,
        message_id: String,
        timestamp: &str,
        ids: &Vec<String>,
        now: i64,
    ) -> (r: Result<(String, Option<String>), SnsError>)
        requires
            self.wf(),
            old(queues).wf(),
            message_attributes matches Some(t) ==> t.wf(),
            ids@.len() >= self.subscription_arns().len(),
        ensures
            final(queues).wf(),
            final(queues).account() == old(queues).account(),
            final(queues).home_region() == old(queues).home_region(),
            self.topics().contains_key(topic_arn@) ==> {
                &&& r matches Ok((id, seq)) && id@ == message_id@ && opt_text(seq) == (if self.topics()[topic_arn@].attributes.is_fifo {
                    Some("10000000000000000000"@)
                } else {
                    None
                })
                &&& final(queues)@ == after_deliveries(
                    old(queues)@,
                    fanout(
                        subs_for(self.subscription_arns(), self.subscriptions(), Some(topic_arn@)),
                        topic_arn@,
                        message@,
                        opt_text(subject),
                        message_attributes,
                        message_id@,
                        timestamp@,
                    ),
                    crate::text::views(ids@),
                    opt_text(message_group_id),
                    opt_text(message_deduplication_id),
                    now,
                )
            },
            !self.topics().contains_key(topic_arn@) ==> (r matches Err(e) && no_topic(e, topic_arn@) && final(queues)@
                == old(queues)@),
    {
        let is_fifo = match self.topics.get(topic_arn) {
            Some(t) => t.attributes.is_fifo,
            None => {
                return Err(Self::topic_missing(topic_arn));
            },
        };
        let ds = self.deliveries(topic_arn, message.as_str(), &subject, &message_attributes, message_id.as_str(), timestamp);
        let ghost dv = ds@.map_values(|d: Delivery| d@);
        let ghost idv = crate::text::views(ids@);
        proof {
            lemma_subs_for_len(self.subscription_arns(), self.subscriptions(), Some(topic_arn@));
            lemma_fanout_len(
                subs_for(self.subscription_arns(), self.subscriptions(), Some(topic_arn@)),
                topic_arn@,
                message@,
                opt_text(subject),
                message_attributes,
                message_id@,
                timestamp@,
            );
        }
        let ghost q0 = queues@;
        let mut i: usize = 0;
        assert(dv.take(0) =~= Seq::<DeliveryView>::empty());
        while i < ds.len()
            invariant
                queues.wf(),
                queues.account() == old(queues).account(),
                queues.home_region() == old(queues).home_region(),
                dv == ds@.map_values(|d: Delivery| d@),
                idv == crate::text::views(ids@),
                i <= ds@.len(),
                ds@.len() <= ids@.len(),
                forall|j: int| 0 <= j < ds@.len() ==> ((#[trigger] ds@[j]).attributes matches Some(t) ==> t.wf()),
                queues@ == after_deliveries(
                    q0,
                    dv.take(i as int),
                    idv,
                    opt_text(message_group_id),
                    opt_text(message_deduplication_id),
                    now,
                ),
            decreases ds@.len() - i,
        {
            let d = &ds[i];
            proof {
                assert(dv.take(i + 1).drop_last() =~= dv.take(i as int));
                assert(dv.take(i + 1).last() == d@);
                assert(idv[i as int] == ids@[i as int]@);
            }
            let attrs = match &d.attributes {
                Some(t) => Some(crate::sqs::queue::copy_attr_table(t)),
                None => None,
            };
            let _ = queues.send_message_at(
                d.endpoint.as_str(),
                d.body.clone(),
                None,
                attrs,
                copy_opt(&message_group_id),
                copy_opt(&message_deduplication_id),
                ids[i].clone(),
                now,
            );
            i = i + 1;
        }
        assert(dv.take(ds@.len() as int) =~= dv);
        let seq = if is_fifo {
            Some(copy_str("10000000000000000000"))
        } else {
            None
        };
        Ok((message_id, seq))
    }

    /// Publishes a message to a topic now, under a fresh message id.
    pub fn publish(
        &self,
        queues: &mut SqsEngine,
        topic_arn: &str,
        message: String,
        subject: Option<String>,
        message_attributes: Option<Table<MessageAttributeValue>>,
        message_deduplication_id: Option<String>,
        message_group_id: Option<String>,
    ) -> (r: Result<(String, Option<String>), SnsError>)
        requires
            self.wf(),
            old(queues).wf(),
            message_attributes matches Some(t) ==> t.wf(),
        ensures
            published(
                *self,
                *old(queues),
                *final(queues),
                topic_arn@,
                message@,
                opt_text(subject),
                message_attributes,
                opt_text(message_deduplication_id),
                opt_text(message_group_id),
                r,
            ),
    {
        let message_id = new_uuid();
        let timestamp = now_rfc3339();
        let n = self.subscriptions.len();
        proof {
            self.subscriptions.lemma_wf();
        }
        let mut ids: Vec<String> = Vec::new();
        let mut i: usize = 0;
        while i < n
            invariant
                i <= n,
                ids@.len() == i,
            decreases n - i,
        {
            ids.push(new_uuid());
            i = i + 1;
        }
        let now = now_millis();
        self.publish_at(
            queues,
            topic_arn,
            message,
            subject,
            message_attributes,
            message_deduplication_id,
            message_group_id,
            message_id,
            timestamp.as_str(),
            &ids,
            now,
        )
    }

    /// Publishes the messages of a batch, in order; a batch to a topic that
    /// does not exist has no successes and no failures.
    pub fn publish_batch(&self, queues: &mut SqsEngine, topic_arn: &str, entries: Vec<PublishBatchEntry>) -> (r: Result<
        (Vec<PublishBatchResultEntry>, Vec<BatchErrorEntry>),
        SnsError,
    >)
        requires
            self.wf(),
            old(queues).wf(),
            forall|i: int|
                0 <= i < entries@.len() ==> ((#[trigger] entries@[i]).message_attributes matches Some(t) ==> t.wf()),
        ensures
            batch_published(*self, *old(queues), *final(queues), topic_arn@, entries@, r),
    {
        let mut ok: Vec<PublishBatchResultEntry> = Vec::new();
        let failed: Vec<BatchErrorEntry> = Vec::new();
        let mut i: usize = 0;
        let found = self.topics.contains(topic_arn);
        while i < entries.len()
            invariant
                self.wf(),
                queues.wf(),
                queues.account() == old(queues).account(),
                queues.home_region() == old(queues).home_region(),
                found == self.topics().contains_key(topic_arn@),
                !found ==> queues@ == old(queues)@ && ok@.len() == 0,
                found ==> ok@.len() == i,
                i <= entries@.len(),
                forall|j: int|
                    0 <= j < entries@.len() ==> ((#[trigger] entries@[j]).message_attributes matches Some(t) ==> t.wf()),
                found ==> forall|j: int|
                    0 <= j < ok@.len() ==> {
                        &&& (#[trigger] ok@[j]).id@ == entries@[j].id@
                        &&& ok@[j].message_id@.len() == 36
                        &&& opt_text(ok@[j].sequence_number) == (if self.topics()[topic_arn@].attributes.is_fifo {
                            Some("10000000000000000000"@)
                        } else {
                            None
                        })
                    },
            decreases entries@.len() - i,
        {
            let e = &entries[i];
            let attrs = match &e.message_attributes {
                Some(t) => Some(copy_sns_attrs(t)),
                None => None,
            };
            match self.publish(
                queues,
                topic_arn,
                e.message.clone(),
                copy_opt(&e.subject),
                attrs,
                copy_opt(&e.message_deduplication_id),
                copy_opt(&e.message_group_id),
            ) {
                Ok((message_id, sequence_number)) => {
                    let ghost before = ok@;
                    ok.push(PublishBatchResultEntry { id: e.id.clone(), message_id, sequence_number });
                    proof {
                        assert forall|j: int| 0 <= j < ok@.len() implies (#[trigger] ok@[j]).id@ == entries@[j].id@ by {
                            if j < before.len() {
                                assert(ok@[j] == before[j]);
                            }
                        }
                    }
                },
                Err(_) => {},
            }
            i = i + 1;
        }
        Ok((ok, failed))
    }
}

/// A copy of a table of message attributes.
fn copy_sns_attrs(t: &Table<MessageAttributeValue>) -> (r: Table<MessageAttributeValue>)
    requires
        t.wf(),
    ensures
        r.wf(),
        r@.map_values(|a: MessageAttributeValue| attr_view(a)) == t@.map_values(|a: MessageAttributeValue| attr_view(a)),
{
    let n = t.len();
    proof {
        t.lemma_wf();
    }
    let mut r: Table<MessageAttributeValue> = Table::new();
    let mut i: usize = 0;
    while i < n
        invariant
            t.wf(),
            r.wf(),
            n == t.keys().len(),
            i <= n,
            forall|j: int| 0 <= j < n ==> #[trigger] t@.contains_key(t.keys()[j]) && t@[t.keys()[j]] == t.vals()[j],
            forall|k: Seq<char>| #[trigger] t@.contains_key(k) ==> exists|j: int| 0 <= j < n && t.keys()[j] == k,
            r@.dom() == t.keys().subrange(0, i as int).to_set(),
            forall|k: Seq<char>| #[trigger] r@.contains_key(k) ==> t@.contains_key(k) && attr_view(r@[k]) == attr_view(t@[k]),
        decreases n - i,
    {
        let (k, v) = t.entry(i);
        proof {
            assert(t@.contains_key(t.keys()[i as int]));
        }
        r.insert(
            k.clone(),
            MessageAttributeValue {
                data_type: v.data_type.clone(),
                string_value: copy_opt(&v.string_value),
                binary_value: copy_opt(&v.binary_value),
            },
        );
        proof {
            let ks = t.keys();
            assert(ks.subrange(0, i + 1) =~= ks.subrange(0, i as int).push(ks[i as int]));
            ks.subrange(0, i as int).lemma_push_to_set_commute(ks[i as int]);
        }
        i = i + 1;
        assert(r@.dom() =~= t.keys().subrange(0, i as int).to_set());
    }
    proof {
        assert(t.keys().subrange(0, n as int) =~= t.keys());
        assert forall|k: Seq<char>| #[trigger] t@.contains_key(k) implies r@.contains_key(k) by {
            let j = choose|j: int| 0 <= j < n && t.keys()[j] == k;
            assert(t.keys().to_set().contains(t.keys()[j]));
        }
        assert(r@.map_values(|a: MessageAttributeValue| attr_view(a)) =~= t@.map_values(
            |a: MessageAttributeValue| attr_view(a),
        ));
    }
    r
}

/// What `SnsEngine::create_topic` does.
pub open spec fn topic_created(e0: SnsEngine, e1: SnsEngine, name: Seq<char>, attributes: Option<Table<String>>, r: Result<String, SnsError>) -> bool {
    &&& e1.wf()
    &&& e1.account() == e0.account()
    &&& e1.home_region() == e0.home_region()
    &&& e1.subscriptions() =~= e0.subscriptions()
    &&& r matches Ok(arn) && arn@ == e0.topic_arn_of(name)
    &&& e0.topics().contains_key(e0.topic_arn_of(name)) ==> e1.topics() =~= e0.topics()
    &&& !e0.topics().contains_key(e0.topic_arn_of(name)) ==> e1.topics() =~= e0.topics().insert(
        e0.topic_arn_of(name),
        TopicView {
            arn: e0.topic_arn_of(name),
            name: name,
            attributes: created_topic_settings(name, opt_texts(attributes)),
            created_timestamp: e1.topics()[e0.topic_arn_of(name)].created_timestamp,
        },
    )
}

/// What `SnsEngine::delete_topic` does.
pub open spec fn topic_deleted(e0: SnsEngine, e1: SnsEngine, topic_arn: Seq<char>, r: Result<(), SnsError>) -> bool {
    &&& e1.wf()
    &&& e1.account() == e0.account()
    &&& e1.home_region() == e0.home_region()
    &&& e0.topics().contains_key(topic_arn) ==> {
        &&& r is Ok
        &&& e1.topics() =~= e0.topics().remove(topic_arn)
        &&& e1.subscriptions() =~= Map::new(
            |k: Seq<char>|
                e0.subscriptions().contains_key(k) && e0.subscriptions()[k].topic_arn
                    != topic_arn,
            |k: Seq<char>| e0.subscriptions()[k],
        )
    }
    &&& !e0.topics().contains_key(topic_arn) ==> (r matches Err(e) && no_topic(e, topic_arn)
        && e1.topics() =~= e0.topics() && e1.subscriptions() =~= e0.subscriptions())
}

/// What `SnsEngine::set_topic_attributes` does.
pub open spec fn topic_attribute_set(e0: SnsEngine, e1: SnsEngine, topic_arn: Seq<char>, attribute_name: Seq<char>, attribute_value: Seq<char>, r: Result<(), SnsError>) -> bool {
    &&& e1.wf()
    &&& e1.account() == e0.account()
    &&& e1.home_region() == e0.home_region()
    &&& e1.subscriptions() =~= e0.subscriptions()
    &&& e0.topics().contains_key(topic_arn) ==> r is Ok && e1.topics() =~= e0.topics().insert(
        topic_arn,
        TopicView {
            attributes: topic_setting_set(
                e0.topics()[topic_arn].attributes,
                attribute_name,
                attribute_value,
            ),
            ..e0.topics()[topic_arn]
        },
    )
    &&& !e0.topics().contains_key(topic_arn) ==> (r matches Err(e) && no_topic(e, topic_arn)
        && e1.topics() =~= e0.topics())
}

/// What `SnsEngine::subscribe` does.
pub open spec fn subscribed(e0: SnsEngine, e1: SnsEngine, topic_arn: Seq<char>, protocol: Seq<char>, endpoint: Seq<char>, attributes: Option<Table<String>>, r: Result<String, SnsError>) -> bool {
    &&& e1.wf()
    &&& e1.account() == e0.account()
    &&& e1.home_region() == e0.home_region()
    &&& e1.topics() =~= e0.topics()
    &&& e0.topics().contains_key(topic_arn) ==> {
        &&& r is Ok
        &&& exists|id: Seq<char>|
            id.len() == 36 && r->Ok_0@ == #[trigger] e0.subscription_arn_of(last_segment(topic_arn), id)
        &&& e1.subscriptions() =~= e0.subscriptions().insert(
            r->Ok_0@,
            new_subscription(
                topic_arn,
                protocol,
                endpoint,
                opt_texts(attributes),
                r->Ok_0@,
                e0.account(),
            ),
        )
    }
    &&& !e0.topics().contains_key(topic_arn) ==> (r matches Err(e) && no_topic(e, topic_arn)
        && e1.subscriptions() =~= e0.subscriptions())
}

/// What `SnsEngine::unsubscribe` does.
pub open spec fn unsubscribed(e0: SnsEngine, e1: SnsEngine, subscription_arn: Seq<char>, r: Result<(), SnsError>) -> bool {
    &&& e1.wf()
    &&& e1.account() == e0.account()
    &&& e1.home_region() == e0.home_region()
    &&& e1.topics() =~= e0.topics()
    &&& e0.subscriptions().contains_key(subscription_arn) ==> r is Ok && e1.subscriptions() =~= e0.subscriptions().remove(subscription_arn)
    &&& !e0.subscriptions().contains_key(subscription_arn) ==> (r matches Err(e) && no_subscription(
        e,
        subscription_arn,
    ) && e1.subscriptions() =~= e0.subscriptions())
}

/// What `SnsEngine::set_subscription_attributes` does.
pub open spec fn subscription_attribute_set(e0: SnsEngine, e1: SnsEngine, subscription_arn: Seq<char>, attribute_name: Seq<char>, attribute_value: Seq<char>, r: Result<(), SnsError>) -> bool {
    &&& e1.wf()
    &&& e1.account() == e0.account()
    &&& e1.home_region() == e0.home_region()
    &&& e1.topics() =~= e0.topics()
    &&& e0.subscriptions().contains_key(subscription_arn) ==> r is Ok && e1.subscriptions() =~= e0.subscriptions().insert(
        subscription_arn,
        subscription_setting_set(
            e0.subscriptions()[subscription_arn],
            attribute_name,
            attribute_value,
        ),
    )
    &&& !e0.subscriptions().contains_key(subscription_arn) ==> (r matches Err(e) && no_subscription(
        e,
        subscription_arn,
    ) && e1.subscriptions() =~= e0.subscriptions())
}

/// What `SnsEngine::publish` does.
pub open spec fn published(
    eng: SnsEngine,
    q0: SqsEngine,
    q1: SqsEngine,
    topic_arn: Seq<char>,
    message: Seq<char>,
    subject: Option<Seq<char>>,
    attrs: Option<Table<MessageAttributeValue>>,
    dedup: Option<Seq<char>>,
    group: Option<Seq<char>>,
    r: Result<(String, Option<String>), SnsError>,
) -> bool {
    &&& q1.wf()
    &&& q1.account() == q0.account()
    &&& q1.home_region() == q0.home_region()
    &&& eng.topics().contains_key(topic_arn) ==> (r matches Ok((id, seq)) && id@.len() == 36 && opt_text(seq) == (
        if eng.topics()[topic_arn].attributes.is_fifo {
        Some("10000000000000000000"@)
    } else {
        None
    }))
    &&& r matches Ok((id, _)) ==> exists|ts: Seq<char>, ids: Seq<Seq<char>>, now: i64|
        #![trigger after_deliveries(q0@, fanout(subs_for(eng.subscription_arns(), eng.subscriptions(), Some(topic_arn)), topic_arn, message, subject, attrs, id@, ts), ids, group, dedup, now)]
        q1@ == after_deliveries(
            q0@,
            fanout(
                subs_for(eng.subscription_arns(), eng.subscriptions(), Some(topic_arn)),
                topic_arn,
                message,
                subject,
                attrs,
                id@,
                ts,
            ),
            ids,
            group,
            dedup,
            now,
        )
    &&& !eng.topics().contains_key(topic_arn) ==> (r matches Err(e) && no_topic(e, topic_arn) && q1@ =~= q0@)
}

/// What `SnsEngine::publish_batch` does.
pub open spec fn batch_published(eng: SnsEngine, q0: SqsEngine, q1: SqsEngine, topic_arn: Seq<char>, entries: Seq<PublishBatchEntry>, r: Result<(Vec<PublishBatchResultEntry>, Vec<BatchErrorEntry>), SnsError>) -> bool {
    &&& q1.wf()
    &&& q1.account() == q0.account()
    &&& q1.home_region() == q0.home_region()
    &&& r matches Ok((ok, failed)) && failed@.len() == 0 && (eng.topics().contains_key(topic_arn) ==> {
        &&& ok@.len() == entries.len()
        &&& forall|i: int|
            0 <= i < ok@.len() ==> {
                &&& (#[trigger] ok@[i]).id@ == entries[i].id@
                &&& ok@[i].message_id@.len() == 36
                &&& opt_text(ok@[i].sequence_number) == (if eng.topics()[topic_arn].attributes.is_fifo {
                    Some("10000000000000000000"@)
                } else {
                    None
                })
            }
    }) && (!eng.topics().contains_key(topic_arn) ==> ok@.len() == 0 && q1@ =~= q0@)
}

/// Sets `key` to `value` in `t` when `cond` holds.
fn put_text(t: &mut Table<String>, cond: bool, key: &str, value: String)
    requires
        old(t).wf(),
    ensures
        final(t).wf(),
        texts(*final(t)) == put_when(texts(*old(t)), cond, key@, value@),
{
    if cond {
        t.insert(copy_str(key), value);
        proof {
            lemma_map_values_insert(old(t)@, key@, final(t)@[key@], |v: String| v@);
        }
    }
}


/// A message published to a topic whose one subscription is a raw SQS
/// subscription without a filter policy arrives, unchanged, as the last
/// message of the subscribed standard queue.
pub proof fn law_raw_delivery_reaches_queue(
    m: Map<Seq<char>, QueueView>,
    s: SubscriptionView,
    topic_arn: Seq<char>,
    message: Seq<char>,
    subject: Option<Seq<char>>,
    attrs: Option<Table<MessageAttributeValue>>,
    message_id: Seq<char>,
    timestamp: Seq<char>,
    ids: Seq<Seq<char>>,
    group: Option<Seq<char>>,
    dedup: Option<Seq<char>>,
    now: i64,
)
    requires
        s.protocol == "sqs"@,
        s.raw_message_delivery,
        s.filter_policy is None,
        m.contains_key(resolved_name(s.endpoint)),
        !m[resolved_name(s.endpoint)].attributes.is_fifo,
        ids.len() >= 1,
    ensures
        ({
            let q = resolved_name(s.endpoint);
            let m1 = after_deliveries(
                m,
                fanout(seq![s], topic_arn, message, subject, attrs, message_id, timestamp),
                ids,
                group,
                dedup,
                now,
            );
            &&& m1[q].messages.len() == m[q].messages.len() + 1
            &&& m1[q].messages.last().body == message
            &&& m1[q].messages.last().message_id == ids[0]
        }),
{
    reveal_with_fuel(fanout, 2);
    reveal_with_fuel(after_deliveries, 2);
    let ds = fanout(seq![s], topic_arn, message, subject, attrs, message_id, timestamp);
    assert(seq![s].drop_last() =~= Seq::<SubscriptionView>::empty());
    assert(seq![s].last() == s);
    assert(ds.len() == 1);
    assert(ds.drop_last() =~= Seq::<DeliveryView>::empty());
}

/// A subscription whose filter policy a message does not pass gets nothing
/// of it.
pub proof fn law_filtered_subscription_gets_nothing(
    s: SubscriptionView,
    topic_arn: Seq<char>,
    message: Seq<char>,
    subject: Option<Seq<char>>,
    attrs: Option<Table<MessageAttributeValue>>,
    message_id: Seq<char>,
    timestamp: Seq<char>,
)
    requires
        s.filter_policy matches Some(fp) && !policy_passes(filter_policy_terms(fp), sns_attr_views(attrs)),
    ensures
        fanout(seq![s], topic_arn, message, subject, attrs, message_id, timestamp).len() == 0,
{
    reveal_with_fuel(fanout, 2);
    assert(seq![s].drop_last() =~= Seq::<SubscriptionView>::empty());
    assert(seq![s].last() == s);
}

/// A message without attributes never passes a filter policy that is a JSON
/// object, and always passes one that is not.
pub proof fn law_policy_needs_attributes(policy: Option<Seq<(Seq<char>, Option<Seq<PolicyTerm>>)>>)
    ensures
        policy_passes(policy, None) == (policy is None),
{
}

} // verus!
