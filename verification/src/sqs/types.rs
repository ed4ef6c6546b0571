//! SQS messages, queue settings and the batch records.
use vstd::prelude::*;
use crate::ses::state::{copy_opt, opt_text};
use crate::table::Table;

verus! {

/// A typed message attribute.
#[derive(Debug)]
pub struct MessageAttributeValue {
    pub data_type: String,
    pub string_value: Option<String>,
    pub binary_value: Option<String>,
}

/// A message attribute as text.
pub struct AttrView {
    pub data_type: Seq<char>,
    pub string_value: Option<Seq<char>>,
    pub binary_value: Option<Seq<char>>,
}

impl MessageAttributeValue {
    pub open spec fn view(&self) -> AttrView {
        AttrView {
            data_type: self.data_type@,
            string_value: opt_text(self.string_value),
            binary_value: opt_text(self.binary_value),
        }
    }

    /// A copy of the attribute.
    pub fn copy(&self) -> (r: Self)
        ensures
            r@ == self@,
    {
        MessageAttributeValue {
            data_type: self.data_type.clone(),
            string_value: copy_opt(&self.string_value),
            binary_value: copy_opt(&self.binary_value),
        }
    }
}

/// A message in a queue. Times are in milliseconds since the Unix epoch;
/// `visible_at` is when a message in flight becomes visible again.
pub struct SqsMessage {
    pub message_id: String,
    pub receipt_handle: String,
    pub md5_of_body: String,
    pub body: String,
    pub attributes: Table<String>,
    pub message_attributes: Table<MessageAttributeValue>,
    pub receive_count: u32,
    pub sent_timestamp: i64,
    pub first_received_timestamp: Option<i64>,
    pub visible_at: i64,
    pub message_group_id: Option<String>,
    pub message_deduplication_id: Option<String>,
    pub sequence_number: Option<u64>,
}

/// A message as text.
pub struct MessageView {
    pub message_id: Seq<char>,
    pub receipt_handle: Seq<char>,
    pub md5_of_body: Seq<char>,
    pub body: Seq<char>,
    pub attributes: Map<Seq<char>, Seq<char>>,
    pub message_attributes: Map<Seq<char>, AttrView>,
    pub receive_count: u32,
    pub sent_timestamp: i64,
    pub first_received_timestamp: Option<i64>,
    pub visible_at: i64,
    pub message_group_id: Option<Seq<char>>,
    pub message_deduplication_id: Option<Seq<char>>,
    pub sequence_number: Option<u64>,
}

impl SqsMessage {
    pub open spec fn view(&self) -> MessageView {
        MessageView {
            message_id: self.message_id@,
            receipt_handle: self.receipt_handle@,
            md5_of_body: self.md5_of_body@,
            body: self.body@,
            attributes: self.attributes@.map_values(|v: String| v@),
            message_attributes: self.message_attributes@.map_values(|a: MessageAttributeValue| a@),
            receive_count: self.receive_count,
            sent_timestamp: self.sent_timestamp,
            first_received_timestamp: self.first_received_timestamp,
            visible_at: self.visible_at,
            message_group_id: opt_text(self.message_group_id),
            message_deduplication_id: opt_text(self.message_deduplication_id),
            sequence_number: self.sequence_number,
        }
    }

    /// The attribute tables are well formed.
    pub open spec fn wf(&self) -> bool {
        self.attributes.wf() && self.message_attributes.wf()
    }
}

/// The settings of a queue. Times are in seconds since the Unix epoch.
#[derive(Debug)]
pub struct QueueAttributes {
    pub visibility_timeout: u32,
    pub delay_seconds: u32,
    pub receive_wait_time_seconds: u32,
    pub max_message_size: u32,
    pub message_retention_period: u32,
    pub is_fifo: bool,
    pub content_based_deduplication: bool,
    pub redrive_policy: Option<String>,
    pub created_timestamp: i64,
    pub last_modified_timestamp: i64,
}

/// One message of a batch send.
pub struct SendMessageBatchEntry {
    pub id: String,
    pub message_body: String,
    pub delay_seconds: Option<u32>,
    pub message_attributes: Option<Table<MessageAttributeValue>>,
    pub message_group_id: Option<String>,
    pub message_deduplication_id: Option<String>,
}

/// The outcome of one message of a batch send.
#[derive(Debug)]
pub struct SendMessageBatchResultEntry {
    pub id: String,
    pub message_id: String,
    pub md5_of_message_body: String,
    pub sequence_number: Option<String>,
}

/// One message of a batch delete.
#[derive(Debug)]
pub struct DeleteMessageBatchEntry {
    pub id: String,
    pub receipt_handle: String,
}

/// One message of a batch visibility change.
#[derive(Debug)]
pub struct ChangeMessageVisibilityBatchEntry {
    pub id: String,
    pub receipt_handle: String,
    pub visibility_timeout: u32,
}

/// A failed entry of a batch.
#[derive(Debug)]
pub struct BatchErrorEntry {
    pub id: String,
    pub sender_fault: bool,
    pub code: String,
    pub message: String,
}

} // verus!
