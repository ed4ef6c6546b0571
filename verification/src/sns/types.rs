//! Topics, subscriptions and the records of a batch publish.
use vstd::prelude::*;
use crate::ses::state::opt_text;
use crate::table::Table;

verus! {

/// The settings of a topic.
#[derive(Debug)]
pub struct TopicAttributes {
    pub display_name: Option<String>,
    pub policy: Option<String>,
    pub delivery_policy: Option<String>,
    pub effective_delivery_policy: Option<String>,
    pub kms_master_key_id: Option<String>,
    pub is_fifo: bool,
    pub content_based_deduplication: bool,
}

/// The settings of a topic as text.
pub struct TopicSettings {
    pub display_name: Option<Seq<char>>,
    pub policy: Option<Seq<char>>,
    pub delivery_policy: Option<Seq<char>>,
    pub effective_delivery_policy: Option<Seq<char>>,
    pub kms_master_key_id: Option<Seq<char>>,
    pub is_fifo: bool,
    pub content_based_deduplication: bool,
}

impl TopicAttributes {
    pub open spec fn view(&self) -> TopicSettings {
        TopicSettings {
            display_name: opt_text(self.display_name),
            policy: opt_text(self.policy),
            delivery_policy: opt_text(self.delivery_policy),
            effective_delivery_policy: opt_text(self.effective_delivery_policy),
            kms_master_key_id: opt_text(self.kms_master_key_id),
            is_fifo: self.is_fifo,
            content_based_deduplication: self.content_based_deduplication,
        }
    }

    /// No setting given.
    pub fn empty() -> (r: Self)
        ensures
            r@ == (TopicSettings {
                display_name: None,
                policy: None,
                delivery_policy: None,
                effective_delivery_policy: None,
                kms_master_key_id: None,
                is_fifo: false,
                content_based_deduplication: false,
            }),
    {
        TopicAttributes {
            display_name: None,
            policy: None,
            delivery_policy: None,
            effective_delivery_policy: None,
            kms_master_key_id: None,
            is_fifo: false,
            content_based_deduplication: false,
        }
    }
}

/// A topic. `created_timestamp` is in seconds since the Unix epoch.
#[derive(Debug)]
pub struct Topic {
    pub arn: String,
    pub name: String,
    pub attributes: TopicAttributes,
    pub created_timestamp: i64,
}

/// A topic as text.
pub struct TopicView {
    pub arn: Seq<char>,
    pub name: Seq<char>,
    pub attributes: TopicSettings,
    pub created_timestamp: i64,
}

impl Topic {
    pub open spec fn view(&self) -> TopicView {
        TopicView {
            arn: self.arn@,
            name: self.name@,
            attributes: self.attributes@,
            created_timestamp: self.created_timestamp,
        }
    }
}

/// The settings of a subscription.
#[derive(Debug)]
pub struct SubscriptionAttributes {
    pub raw_message_delivery: bool,
    pub filter_policy: Option<String>,
    pub redrive_policy: Option<String>,
}

/// A subscription of an endpoint to a topic.
#[derive(Debug)]
pub struct Subscription {
    pub subscription_arn: String,
    pub topic_arn: String,
    pub protocol: String,
    pub endpoint: String,
    pub owner: String,
    pub attributes: SubscriptionAttributes,
}

/// A subscription as text.
pub struct SubscriptionView {
    pub subscription_arn: Seq<char>,
    pub topic_arn: Seq<char>,
    pub protocol: Seq<char>,
    pub endpoint: Seq<char>,
    pub owner: Seq<char>,
    pub raw_message_delivery: bool,
    pub filter_policy: Option<Seq<char>>,
    pub redrive_policy: Option<Seq<char>>,
}

impl Subscription {
    pub open spec fn view(&self) -> SubscriptionView {
        SubscriptionView {
            subscription_arn: self.subscription_arn@,
            topic_arn: self.topic_arn@,
            protocol: self.protocol@,
            endpoint: self.endpoint@,
            owner: self.owner@,
            raw_message_delivery: self.attributes.raw_message_delivery,
            filter_policy: opt_text(self.attributes.filter_policy),
            redrive_policy: opt_text(self.attributes.redrive_policy),
        }
    }

    /// A copy of the subscription.
    pub fn copy(&self) -> (r: Self)
        ensures
            r@ == self@,
    {
        Subscription {
            subscription_arn: self.subscription_arn.clone(),
            topic_arn: self.topic_arn.clone(),
            protocol: self.protocol.clone(),
            endpoint: self.endpoint.clone(),
            owner: self.owner.clone(),
            attributes: SubscriptionAttributes {
                raw_message_delivery: self.attributes.raw_message_delivery,
                filter_policy: crate::ses::state::copy_opt(&self.attributes.filter_policy),
                redrive_policy: crate::ses::state::copy_opt(&self.attributes.redrive_policy),
            },
        }
    }
}

/// A typed message attribute.
#[derive(Debug)]
pub struct MessageAttributeValue {
    pub data_type: String,
    pub string_value: Option<String>,
    pub binary_value: Option<String>,
}

/// One message of a batch publish.
pub struct PublishBatchEntry {
    pub id: String,
    pub message: String,
    pub subject: Option<String>,
    pub message_attributes: Option<Table<MessageAttributeValue>>,
    pub message_deduplication_id: Option<String>,
    pub message_group_id: Option<String>,
}

/// The outcome of one message of a batch publish.
#[derive(Debug)]
pub struct PublishBatchResultEntry {
    pub id: String,
    pub message_id: String,
    pub sequence_number: Option<String>,
}

/// A failed entry of a batch publish.
#[derive(Debug)]
pub struct BatchErrorEntry {
    pub id: String,
    pub code: String,
    pub message: String,
    pub sender_fault: bool,
}

/// Every topic and subscription.
#[derive(Debug)]
pub struct SnsSnapshot {
    pub topics: Vec<Topic>,
    pub subscriptions: Vec<Subscription>,
}

} // verus!
