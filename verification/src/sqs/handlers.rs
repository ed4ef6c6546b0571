//! The queue service's two protocols: requests read from a JSON body or from
//! query parameters, carried out on the service, and answered in JSON or XML.
use vstd::prelude::*;
use crate::http::{json_str, reply, Reply, JSON_TYPE};
use crate::json::{body_reads_as, body_unreadable, json_request_body, get_str, get_strings, get_u64, json_as_str, json_as_u64, json_get, json_strings, JsonValue};
use crate::ses::state::opt_text;
use crate::sqs::codec::{
    json_create_queue_response, json_delete_batch_answer, json_delete_message_batch_response,
    json_get_queue_attributes_response, json_list_queues_response, json_object, json_receive_answer,
    json_receive_message_response, json_send_answer, json_send_batch_answer, json_send_message_batch_response,
    json_send_message_response, json_url_answer, xml_attributes_answer, xml_create_queue_response,
    xml_delete_batch_answer, xml_delete_message_batch_response, xml_empty_answer, xml_empty_response,
    xml_get_queue_attributes_response, xml_get_queue_url_response, xml_list_queues_response, xml_receive_answer,
    xml_receive_message_response, xml_send_answer, xml_send_batch_answer, xml_send_message_batch_response,
    xml_send_message_response, xml_url_answer, xml_urls_answer,
};
use crate::sqs::engine::{
    attributes_read, attributes_set, batch_deleted, batch_sent, listed_urls, message_deleted, messages_received,
    queue_created, queue_deleted, queue_purged, resolved_name, message_sent, texts, visibility_changed, SqsEngine,
};
use crate::http::json_str_array;
use crate::sqs::queue::{SqsError, SqsErrorKind};
use crate::sqs::types::{
    AttrView, BatchErrorEntry, DeleteMessageBatchEntry, MessageAttributeValue, SendMessageBatchEntry,
    SendMessageBatchResultEntry, SqsMessage,
};
use crate::table::{lemma_map_values_insert, Table};
use crate::text::{append, copy_str, str_eq, strip_prefix, views};

verus! {

/// The actions of the queue service.
#[derive(Debug, Clone, Copy, PartialEq, Eq)]
pub enum SqsAction {
    CreateQueue,
    GetQueueUrl,
    ListQueues,
    GetQueueAttributes,
    SetQueueAttributes,
    DeleteQueue,
    PurgeQueue,
    ListDeadLetterSourceQueues,
    SendMessage,
    SendMessageBatch,
    ReceiveMessage,
    DeleteMessage,
    DeleteMessageBatch,
    ChangeMessageVisibility,
    Unknown,
}

/// The action an action name stands for.
pub open spec fn sqs_action_of(a: Seq<char>) -> SqsAction {
    if a == "CreateQueue"@ {
        SqsAction::CreateQueue
    } else if a == "GetQueueUrl"@ {
        SqsAction::GetQueueUrl
    } else if a == "ListQueues"@ {
        SqsAction::ListQueues
    } else if a == "GetQueueAttributes"@ {
        SqsAction::GetQueueAttributes
    } else if a == "SetQueueAttributes"@ {
        SqsAction::SetQueueAttributes
    } else if a == "DeleteQueue"@ {
        SqsAction::DeleteQueue
    } else if a == "PurgeQueue"@ {
        SqsAction::PurgeQueue
    } else if a == "ListDeadLetterSourceQueues"@ {
        SqsAction::ListDeadLetterSourceQueues
    } else if a == "SendMessage"@ {
        SqsAction::SendMessage
    } else if a == "SendMessageBatch"@ {
        SqsAction::SendMessageBatch
    } else if a == "ReceiveMessage"@ {
        SqsAction::ReceiveMessage
    } else if a == "DeleteMessage"@ {
        SqsAction::DeleteMessage
    } else if a == "DeleteMessageBatch"@ {
        SqsAction::DeleteMessageBatch
    } else if a == "ChangeMessageVisibility"@ {
        SqsAction::ChangeMessageVisibility
    } else {
        SqsAction::Unknown
    }
}

/// The action an action name stands for.
pub fn parse_sqs_action(a: &str) -> (r: SqsAction)
    ensures
        r == sqs_action_of(a@),
{
    if str_eq(a, "CreateQueue") {
        SqsAction::CreateQueue
    } else if str_eq(a, "GetQueueUrl") {
        SqsAction::GetQueueUrl
    } else if str_eq(a, "ListQueues") {
        SqsAction::ListQueues
    } else if str_eq(a, "GetQueueAttributes") {
        SqsAction::GetQueueAttributes
    } else if str_eq(a, "SetQueueAttributes") {
        SqsAction::SetQueueAttributes
    } else if str_eq(a, "DeleteQueue") {
        SqsAction::DeleteQueue
    } else if str_eq(a, "PurgeQueue") {
        SqsAction::PurgeQueue
    } else if str_eq(a, "ListDeadLetterSourceQueues") {
        SqsAction::ListDeadLetterSourceQueues
    } else if str_eq(a, "SendMessage") {
        SqsAction::SendMessage
    } else if str_eq(a, "SendMessageBatch") {
        SqsAction::SendMessageBatch
    } else if str_eq(a, "ReceiveMessage") {
        SqsAction::ReceiveMessage
    } else if str_eq(a, "DeleteMessage") {
        SqsAction::DeleteMessage
    } else if str_eq(a, "DeleteMessageBatch") {
        SqsAction::DeleteMessageBatch
    } else if str_eq(a, "ChangeMessageVisibility") {
        SqsAction::ChangeMessageVisibility
    } else {
        SqsAction::Unknown
    }
}

/// A request to the queue service, read from either protocol.
pub enum SqsRequest {
    CreateQueue { name: String, attributes: Table<String> },
    GetQueueUrl { name: String },
    ListQueues { prefix: Option<String> },
    GetQueueAttributes { queue_url: String, names: Vec<String> },
    SetQueueAttributes { queue_url: String, attributes: Table<String> },
    DeleteQueue { queue_url: String },
    PurgeQueue { queue_url: String },
    ListDeadLetterSourceQueues { queue_url: String },
    SendMessage {
        queue_url: String,
        body: String,
        delay_seconds: Option<u32>,
        attributes: Table<MessageAttributeValue>,
        group_id: Option<String>,
        deduplication_id: Option<String>,
    },
    SendMessageBatch { queue_url: String, entries: Vec<SendMessageBatchEntry> },
    ReceiveMessage {
        queue_url: String,
        max_number_of_messages: u32,
        visibility_timeout: Option<u32>,
        wait_time_seconds: Option<u32>,
    },
    DeleteMessage { queue_url: String, receipt_handle: String },
    DeleteMessageBatch { queue_url: String, entries: Vec<DeleteMessageBatchEntry> },
    ChangeMessageVisibility { queue_url: String, receipt_handle: String, visibility_timeout: u32 },
}

impl SqsRequest {
    /// The tables in the request are well formed.
    pub open spec fn wf(&self) -> bool {
        match self {
            SqsRequest::CreateQueue { attributes, .. } => attributes.wf(),
            SqsRequest::SetQueueAttributes { attributes, .. } => attributes.wf(),
            SqsRequest::SendMessage { attributes, .. } => attributes.wf(),
            SqsRequest::SendMessageBatch { entries, .. } => forall|i: int|
                0 <= i < entries@.len() ==> (#[trigger] entries@[i]).message_attributes is None,
            _ => true,
        }
    }
}

/// The error for a missing parameter.
pub open spec fn missing_param(e: SqsError, name: Seq<char>) -> bool {
    e.kind == SqsErrorKind::MissingParameter && e.message@ == "The request must contain the parameter "@ + name + "."@
}

fn missing(name: &str) -> (e: SqsError)
    ensures
        missing_param(e, name@),
{
    let mut m = String::new();
    append(&mut m, "The request must contain the parameter ");
    append(&mut m, name);
    append(&mut m, ".");
    SqsError { kind: SqsErrorKind::MissingParameter, message: m }
}

// ---------------------------------------------------------------------------
// Requests in JSON.

/// The string members of a JSON object, in order, a later one winning.
pub open spec fn text_members(entries: Seq<(String, JsonValue)>) -> Map<Seq<char>, Seq<char>>
    decreases entries.len(),
{
    if entries.len() == 0 {
        Map::empty()
    } else {
        let m = text_members(entries.drop_last());
        match entries.last().1 {
            JsonValue::Str(s) => m.insert(entries.last().0@, s@),
            _ => m,
        }
    }
}

/// The string members of an optional JSON object.
pub open spec fn json_texts(v: Option<JsonValue>) -> Map<Seq<char>, Seq<char>> {
    match v {
        Some(JsonValue::Object(entries)) => text_members(entries@),
        _ => Map::empty(),
    }
}

/// The message attributes of a JSON object: each member with a string
/// `DataType`, in order, a later one winning.
pub open spec fn attr_members(entries: Seq<(String, JsonValue)>) -> Map<Seq<char>, AttrView>
    decreases entries.len(),
{
    if entries.len() == 0 {
        Map::empty()
    } else {
        let m = attr_members(entries.drop_last());
        let v = entries.last().1;
        match json_as_str(json_get(v, "DataType"@)) {
            Some(dt) => m.insert(
                entries.last().0@,
                AttrView {
                    data_type: dt,
                    string_value: json_as_str(json_get(v, "StringValue"@)),
                    binary_value: json_as_str(json_get(v, "BinaryValue"@)),
                },
            ),
            None => m,
        }
    }
}

/// The message attributes of an optional JSON object.
pub open spec fn json_attrs(v: Option<JsonValue>) -> Map<Seq<char>, AttrView> {
    match v {
        Some(JsonValue::Object(entries)) => attr_members(entries@),
        _ => Map::empty(),
    }
}

/// The items of an optional JSON array.
pub open spec fn json_items(v: Option<JsonValue>) -> Seq<JsonValue> {
    match v {
        Some(JsonValue::Array(items)) => items@,
        _ => Seq::empty(),
    }
}

/// A string member, or the empty text.
pub open spec fn text_or_empty(v: JsonValue, key: Seq<char>) -> Seq<char> {
    match json_as_str(json_get(v, key)) {
        Some(s) => s,
        None => Seq::empty(),
    }
}

/// A number member, cut to 32 bits.
pub open spec fn json_u32(v: JsonValue, key: Seq<char>) -> Option<u32> {
    match json_as_u64(json_get(v, key)) {
        Some(n) => Some(n as u32),
        None => None,
    }
}

/// `e` is the batch send entry read from JSON item `item`.
pub open spec fn send_entry_of(e: SendMessageBatchEntry, item: JsonValue) -> bool {
    &&& e.id@ == text_or_empty(item, "Id"@)
    &&& e.message_body@ == text_or_empty(item, "MessageBody"@)
    &&& e.delay_seconds == json_u32(item, "DelaySeconds"@)
    &&& e.message_attributes is None
    &&& opt_text(e.message_group_id) == json_as_str(json_get(item, "MessageGroupId"@))
    &&& opt_text(e.message_deduplication_id) == json_as_str(json_get(item, "MessageDeduplicationId"@))
}

/// `e` is the batch delete entry read from JSON item `item`.
pub open spec fn delete_entry_of(e: DeleteMessageBatchEntry, item: JsonValue) -> bool {
    &&& e.id@ == text_or_empty(item, "Id"@)
    &&& e.receipt_handle@ == text_or_empty(item, "ReceiptHandle"@)
}

/// The string members of a JSON member that is an object.
pub fn text_table(v: &JsonValue, key: &str) -> (t: Table<String>)
    ensures
        t.wf(),
        texts(t) == json_texts(json_get(*v, key@)),
{
    let mut t: Table<String> = Table::new();
    assert(texts(t) =~= Map::<Seq<char>, Seq<char>>::empty());
    match v.get(key) {
        Some(JsonValue::Object(entries)) => {
            let mut i: usize = 0;
            assert(entries@.take(0) =~= Seq::<(String, JsonValue)>::empty());
            while i < entries.len()
                invariant
                    t.wf(),
                    i <= entries@.len(),
                    texts(t) == text_members(entries@.take(i as int)),
                decreases entries@.len() - i,
            {
                proof {
                    assert(entries@.take(i + 1).drop_last() =~= entries@.take(i as int));
                    assert(entries@.take(i + 1).last() == entries@[i as int]);
                }
                match &entries[i].1 {
                    JsonValue::Str(s) => {
                        let ghost before = t@;
                        t.insert(entries[i].0.clone(), s.clone());
                        proof {
                            lemma_map_values_insert(before, entries@[i as int].0@, t@[entries@[i as int].0@], |v: String| v@);
                        }
                    },
                    _ => {},
                }
                i = i + 1;
            }
            assert(entries@.take(entries@.len() as int) =~= entries@);
        },
        _ => {},
    }
    t
}

/// The message attributes of a JSON member that is an object.
fn attr_table(v: &JsonValue, key: &str) -> (t: Table<MessageAttributeValue>)
    ensures
        t.wf(),
        t@.map_values(|a: MessageAttributeValue| a@) == json_attrs(json_get(*v, key@)),
{
    let mut t: Table<MessageAttributeValue> = Table::new();
    assert(t@.map_values(|a: MessageAttributeValue| a@) =~= Map::<Seq<char>, AttrView>::empty());
    match v.get(key) {
        Some(JsonValue::Object(entries)) => {
            let mut i: usize = 0;
            assert(entries@.take(0) =~= Seq::<(String, JsonValue)>::empty());
            while i < entries.len()
                invariant
                    t.wf(),
                    i <= entries@.len(),
                    t@.map_values(|a: MessageAttributeValue| a@) == attr_members(entries@.take(i as int)),
                decreases entries@.len() - i,
            {
                proof {
                    assert(entries@.take(i + 1).drop_last() =~= entries@.take(i as int));
                    assert(entries@.take(i + 1).last() == entries@[i as int]);
                }
                let item = &entries[i].1;
                match get_str(item, "DataType") {
                    Some(dt) => {
                        let a = MessageAttributeValue {
                            data_type: dt,
                            string_value: get_str(item, "StringValue"),
                            binary_value: get_str(item, "BinaryValue"),
                        };
                        let ghost before = t@;
                        let ghost av = a;
                        t.insert(entries[i].0.clone(), a);
                        proof {
                            lemma_map_values_insert(before, entries@[i as int].0@, av, |a: MessageAttributeValue| a@);
                        }
                    },
                    None => {},
                }
                i = i + 1;
            }
            assert(entries@.take(entries@.len() as int) =~= entries@);
        },
        _ => {},
    }
    t
}

pub fn str_or_empty(v: &JsonValue, key: &str) -> (r: String)
    ensures
        r@ == text_or_empty(*v, key@),
{
    match get_str(v, key) {
        Some(s) => s,
        None => {
            proof {
                reveal_strlit("");
            }
            let e = copy_str("");
            assert(e@ =~= Seq::<char>::empty());
            e
        },
    }
}

fn u32_member(v: &JsonValue, key: &str) -> (r: Option<u32>)
    ensures
        r == json_u32(*v, key@),
{
    match get_u64(v, key) {
        Some(n) => Some(n as u32),
        None => None,
    }
}

/// The batch send entries of a JSON request.
fn send_entries(v: &JsonValue) -> (r: Vec<SendMessageBatchEntry>)
    ensures
        r@.len() == json_items(json_get(*v, "Entries"@)).len(),
        forall|i: int| 0 <= i < r@.len() ==> send_entry_of(#[trigger] r@[i], json_items(json_get(*v, "Entries"@))[i]),
{
    let mut r: Vec<SendMessageBatchEntry> = Vec::new();
    match v.get("Entries") {
        Some(JsonValue::Array(items)) => {
            let mut i: usize = 0;
            while i < items.len()
                invariant
                    json_items(json_get(*v, "Entries"@)) == items@,
                    i <= items@.len(),
                    r@.len() == i,
                    forall|j: int| 0 <= j < i ==> send_entry_of(#[trigger] r@[j], items@[j]),
                decreases items@.len() - i,
            {
                let item = &items[i];
                let e = SendMessageBatchEntry {
                    id: str_or_empty(item, "Id"),
                    message_body: str_or_empty(item, "MessageBody"),
                    delay_seconds: u32_member(item, "DelaySeconds"),
                    message_attributes: None,
                    message_group_id: get_str(item, "MessageGroupId"),
                    message_deduplication_id: get_str(item, "MessageDeduplicationId"),
                };
                r.push(e);
                i = i + 1;
            }
        },
        _ => {},
    }
    r
}

/// The batch delete entries of a JSON request.
fn delete_entries(v: &JsonValue) -> (r: Vec<DeleteMessageBatchEntry>)
    ensures
        r@.len() == json_items(json_get(*v, "Entries"@)).len(),
        forall|i: int| 0 <= i < r@.len() ==> delete_entry_of(#[trigger] r@[i], json_items(json_get(*v, "Entries"@))[i]),
{
    let mut r: Vec<DeleteMessageBatchEntry> = Vec::new();
    match v.get("Entries") {
        Some(JsonValue::Array(items)) => {
            let mut i: usize = 0;
            while i < items.len()
                invariant
                    json_items(json_get(*v, "Entries"@)) == items@,
                    i <= items@.len(),
                    r@.len() == i,
                    forall|j: int| 0 <= j < i ==> delete_entry_of(#[trigger] r@[j], items@[j]),
                decreases items@.len() - i,
            {
                let item = &items[i];
                r.push(
                    DeleteMessageBatchEntry {
                        id: str_or_empty(item, "Id"),
                        receipt_handle: str_or_empty(item, "ReceiptHandle"),
                    },
                );
                i = i + 1;
            }
        },
        _ => {},
    }
    r
}

/// The string member `key`, or the missing-parameter error.
fn required(v: &JsonValue, key: &str) -> (r: Result<String, SqsError>)
    ensures
        match json_as_str(json_get(*v, key@)) {
            Some(s) => r matches Ok(t) && t@ == s,
            None => r matches Err(e) && missing_param(e, key@),
        },
{
    match get_str(v, key) {
        Some(s) => Ok(s),
        None => Err(missing(key)),
    }
}

/// `r` is the request that JSON body `b` makes for action `act`.
pub open spec fn json_request(act: SqsAction, b: JsonValue, r: Result<SqsRequest, SqsError>) -> bool {
    let url = json_as_str(json_get(b, "QueueUrl"@));
    let name = json_as_str(json_get(b, "QueueName"@));
    match act {
        SqsAction::CreateQueue => match name {
            None => r matches Err(e) && missing_param(e, "QueueName"@),
            Some(n) => r matches Ok(SqsRequest::CreateQueue { name, attributes }) && name@ == n && attributes.wf()
                && texts(attributes) == json_texts(json_get(b, "Attributes"@)),
        },
        SqsAction::GetQueueUrl => match name {
            None => r matches Err(e) && missing_param(e, "QueueName"@),
            Some(n) => r matches Ok(SqsRequest::GetQueueUrl { name }) && name@ == n,
        },
        SqsAction::ListQueues => r matches Ok(SqsRequest::ListQueues { prefix }) && opt_text(prefix) == json_as_str(
            json_get(b, "QueueNamePrefix"@),
        ),
        SqsAction::Unknown => false,
        _ => match url {
            None => r matches Err(e) && missing_param(e, "QueueUrl"@),
            Some(u) => match act {
                SqsAction::GetQueueAttributes => r matches Ok(SqsRequest::GetQueueAttributes { queue_url, names })
                    && queue_url@ == u && views(names@) == json_strings(json_get(b, "AttributeNames"@)),
                SqsAction::SetQueueAttributes => r matches Ok(SqsRequest::SetQueueAttributes { queue_url, attributes })
                    && queue_url@ == u && attributes.wf() && texts(attributes) == json_texts(json_get(b, "Attributes"@)),
                SqsAction::DeleteQueue => r matches Ok(SqsRequest::DeleteQueue { queue_url }) && queue_url@ == u,
                SqsAction::PurgeQueue => r matches Ok(SqsRequest::PurgeQueue { queue_url }) && queue_url@ == u,
                SqsAction::ListDeadLetterSourceQueues => r matches Ok(SqsRequest::ListDeadLetterSourceQueues { queue_url })
                    && queue_url@ == u,
                SqsAction::SendMessage => match json_as_str(json_get(b, "MessageBody"@)) {
                    None => r matches Err(e) && missing_param(e, "MessageBody"@),
                    Some(body_text) => r matches Ok(
                        SqsRequest::SendMessage {
                            queue_url,
                            body,
                            delay_seconds,
                            attributes,
                            group_id,
                            deduplication_id,
                        },
                    ) && queue_url@ == u && body@ == body_text && delay_seconds == json_u32(b, "DelaySeconds"@)
                        && attributes.wf() && attributes@.map_values(|a: MessageAttributeValue| a@) == json_attrs(
                        json_get(b, "MessageAttributes"@),
                    ) && opt_text(group_id) == json_as_str(json_get(b, "MessageGroupId"@)) && opt_text(
                        deduplication_id,
                    ) == json_as_str(json_get(b, "MessageDeduplicationId"@)),
                },
                SqsAction::SendMessageBatch => r matches Ok(SqsRequest::SendMessageBatch { queue_url, entries })
                    && queue_url@ == u && entries@.len() == json_items(json_get(b, "Entries"@)).len() && forall|i: int|
                    0 <= i < entries@.len() ==> send_entry_of(
                        #[trigger] entries@[i],
                        json_items(json_get(b, "Entries"@))[i],
                    ),
                SqsAction::ReceiveMessage => r matches Ok(
                    SqsRequest::ReceiveMessage {
                        queue_url,
                        max_number_of_messages,
                        visibility_timeout,
                        wait_time_seconds,
                    },
                ) && queue_url@ == u && max_number_of_messages == (match json_as_u64(
                    json_get(b, "MaxNumberOfMessages"@),
                ) {
                    Some(n) => n,
                    None => 1,
                }) as u32 && visibility_timeout == json_u32(b, "VisibilityTimeout"@) && wait_time_seconds == json_u32(
                    b,
                    "WaitTimeSeconds"@,
                ),
                SqsAction::DeleteMessage => match json_as_str(json_get(b, "ReceiptHandle"@)) {
                    None => r matches Err(e) && missing_param(e, "ReceiptHandle"@),
                    Some(h) => r matches Ok(SqsRequest::DeleteMessage { queue_url, receipt_handle }) && queue_url@ == u
                        && receipt_handle@ == h,
                },
                SqsAction::DeleteMessageBatch => r matches Ok(SqsRequest::DeleteMessageBatch { queue_url, entries })
                    && queue_url@ == u && entries@.len() == json_items(json_get(b, "Entries"@)).len() && forall|i: int|
                    0 <= i < entries@.len() ==> delete_entry_of(
                        #[trigger] entries@[i],
                        json_items(json_get(b, "Entries"@))[i],
                    ),
                SqsAction::ChangeMessageVisibility => match json_as_str(json_get(b, "ReceiptHandle"@)) {
                    None => r matches Err(e) && missing_param(e, "ReceiptHandle"@),
                    Some(h) => match json_u32(b, "VisibilityTimeout"@) {
                        None => r matches Err(e) && missing_param(e, "VisibilityTimeout"@),
                        Some(vt) => r matches Ok(
                            SqsRequest::ChangeMessageVisibility { queue_url, receipt_handle, visibility_timeout },
                        ) && queue_url@ == u && receipt_handle@ == h && visibility_timeout == vt,
                    },
                },
                _ => false,
            },
        },
    }
}

/// Reads the request that a JSON body makes for a known action.
#[verifier::rlimit(60)]
pub fn parse_sqs_json(act: SqsAction, b: &JsonValue) -> (r: Result<SqsRequest, SqsError>)
    requires
        act != SqsAction::Unknown,
    ensures
        json_request(act, *b, r),
        r matches Ok(q) ==> q.wf(),
{
    match act {
        SqsAction::CreateQueue => {
            let name = required(b, "QueueName")?;
            let attributes = text_table(b, "Attributes");
            return Ok(SqsRequest::CreateQueue { name, attributes });
        },
        SqsAction::GetQueueUrl => {
            let name = required(b, "QueueName")?;
            return Ok(SqsRequest::GetQueueUrl { name });
        },
        SqsAction::ListQueues => {
            return Ok(SqsRequest::ListQueues { prefix: get_str(b, "QueueNamePrefix") });
        },
        _ => {},
    }
    let queue_url = required(b, "QueueUrl")?;
    match act {
        SqsAction::GetQueueAttributes => Ok(
            SqsRequest::GetQueueAttributes { queue_url, names: get_strings(b, "AttributeNames") },
        ),
        SqsAction::SetQueueAttributes => Ok(
            SqsRequest::SetQueueAttributes { queue_url, attributes: text_table(b, "Attributes") },
        ),
        SqsAction::DeleteQueue => Ok(SqsRequest::DeleteQueue { queue_url }),
        SqsAction::PurgeQueue => Ok(SqsRequest::PurgeQueue { queue_url }),
        SqsAction::ListDeadLetterSourceQueues => Ok(SqsRequest::ListDeadLetterSourceQueues { queue_url }),
        SqsAction::SendMessage => {
            let body = required(b, "MessageBody")?;
            Ok(
                SqsRequest::SendMessage {
                    queue_url,
                    body,
                    delay_seconds: u32_member(b, "DelaySeconds"),
                    attributes: attr_table(b, "MessageAttributes"),
                    group_id: get_str(b, "MessageGroupId"),
                    deduplication_id: get_str(b, "MessageDeduplicationId"),
                },
            )
        },
        SqsAction::SendMessageBatch => Ok(SqsRequest::SendMessageBatch { queue_url, entries: send_entries(b) }),
        SqsAction::ReceiveMessage => {
            let max = match get_u64(b, "MaxNumberOfMessages") {
                Some(n) => n,
                None => 1,
            };
            Ok(
                SqsRequest::ReceiveMessage {
                    queue_url,
                    max_number_of_messages: max as u32,
                    visibility_timeout: u32_member(b, "VisibilityTimeout"),
                    wait_time_seconds: u32_member(b, "WaitTimeSeconds"),
                },
            )
        },
        SqsAction::DeleteMessage => {
            let receipt_handle = required(b, "ReceiptHandle")?;
            Ok(SqsRequest::DeleteMessage { queue_url, receipt_handle })
        },
        SqsAction::DeleteMessageBatch => Ok(
            SqsRequest::DeleteMessageBatch { queue_url, entries: delete_entries(b) },
        ),
        _ => {
            let receipt_handle = required(b, "ReceiptHandle")?;
            match u32_member(b, "VisibilityTimeout") {
                Some(visibility_timeout) => Ok(
                    SqsRequest::ChangeMessageVisibility { queue_url, receipt_handle, visibility_timeout },
                ),
                None => Err(missing("VisibilityTimeout")),
            }
        },
    }
}


// ---------------------------------------------------------------------------
// Requests in query parameters.

/// The key `{head}{i}{tail}`.
pub open spec fn indexed_key(head: Seq<char>, i: nat, tail: Seq<char>) -> Seq<char> {
    head + crate::text::decimal(i) + tail
}

fn key_of(head: &str, i: u64, tail: &str) -> (r: String)
    ensures
        r@ == indexed_key(head@, i as nat, tail@),
{
    let mut k = String::new();
    append(&mut k, head);
    crate::text::append_u64(&mut k, i);
    append(&mut k, tail);
    assert(k@ =~= indexed_key(head@, i as nat, tail@));
    k
}

/// The settings given as `Attribute.{i}.Name` and `Attribute.{i}.Value`, for `i`
/// from 1 to `n`, a later one winning.
pub open spec fn query_attributes(p: Map<Seq<char>, Seq<char>>, n: nat) -> Map<Seq<char>, Seq<char>>
    decreases n,
{
    if n == 0 {
        Map::empty()
    } else {
        let m = query_attributes(p, (n - 1) as nat);
        let nk = indexed_key("Attribute."@, n, ".Name"@);
        let vk = indexed_key("Attribute."@, n, ".Value"@);
        if p.contains_key(nk) && p.contains_key(vk) {
            m.insert(p[nk], p[vk])
        } else {
            m
        }
    }
}

/// The attribute names given as `AttributeName.{i}`, for `i` from 1 to `n`.
pub open spec fn query_names(p: Map<Seq<char>, Seq<char>>, n: nat) -> Seq<Seq<char>>
    decreases n,
{
    if n == 0 {
        Seq::empty()
    } else {
        let s = query_names(p, (n - 1) as nat);
        let k = indexed_key("AttributeName."@, n, ""@);
        if p.contains_key(k) {
            s.push(p[k])
        } else {
            s
        }
    }
}

/// The message attributes given as `MessageAttribute.{i}.Name` with
/// `.Value.DataType` and, optionally, `.Value.StringValue`.
pub open spec fn query_message_attributes(p: Map<Seq<char>, Seq<char>>, n: nat) -> Map<Seq<char>, AttrView>
    decreases n,
{
    if n == 0 {
        Map::empty()
    } else {
        let m = query_message_attributes(p, (n - 1) as nat);
        let nk = indexed_key("MessageAttribute."@, n, ".Name"@);
        let dk = indexed_key("MessageAttribute."@, n, ".Value.DataType"@);
        let sk = indexed_key("MessageAttribute."@, n, ".Value.StringValue"@);
        if p.contains_key(nk) && p.contains_key(dk) {
            m.insert(
                p[nk],
                AttrView {
                    data_type: p[dk],
                    string_value: if p.contains_key(sk) {
                        Some(p[sk])
                    } else {
                        None
                    },
                    binary_value: None,
                },
            )
        } else {
            m
        }
    }
}

/// An optional parameter.
pub open spec fn param(p: Map<Seq<char>, Seq<char>>, k: Seq<char>) -> Option<Seq<char>> {
    if p.contains_key(k) {
        Some(p[k])
    } else {
        None
    }
}

/// An optional number parameter; one that is not a number counts as absent.
pub open spec fn number_param(p: Map<Seq<char>, Seq<char>>, k: Seq<char>) -> Option<u32> {
    if p.contains_key(k) {
        crate::text::parse_u32_spec(p[k])
    } else {
        None
    }
}

/// A batch send entry as text: id, body, delay, group and deduplication id.
pub open spec fn send_entry_view(e: SendMessageBatchEntry) -> (
    Seq<char>,
    Seq<char>,
    Option<u32>,
    Option<Seq<char>>,
    Option<Seq<char>>,
) {
    (e.id@, e.message_body@, e.delay_seconds, opt_text(e.message_group_id), opt_text(e.message_deduplication_id))
}

/// The batch send entries given as `SendMessageBatchRequestEntry.{i}.*`: those
/// with both an id and a body.
pub open spec fn query_send_entries(p: Map<Seq<char>, Seq<char>>, n: nat) -> Seq<
    (Seq<char>, Seq<char>, Option<u32>, Option<Seq<char>>, Option<Seq<char>>),
>
    decreases n,
{
    if n == 0 {
        Seq::empty()
    } else {
        let s = query_send_entries(p, (n - 1) as nat);
        let h = "SendMessageBatchRequestEntry."@;
        let ik = indexed_key(h, n, ".Id"@);
        let bk = indexed_key(h, n, ".MessageBody"@);
        if p.contains_key(ik) && p.contains_key(bk) {
            s.push(
                (
                    p[ik],
                    p[bk],
                    number_param(p, indexed_key(h, n, ".DelaySeconds"@)),
                    param(p, indexed_key(h, n, ".MessageGroupId"@)),
                    param(p, indexed_key(h, n, ".MessageDeduplicationId"@)),
                ),
            )
        } else {
            s
        }
    }
}

/// The batch delete entries given as `DeleteMessageBatchRequestEntry.{i}.*`:
/// those with both an id and a receipt handle.
pub open spec fn query_delete_entries(p: Map<Seq<char>, Seq<char>>, n: nat) -> Seq<(Seq<char>, Seq<char>)>
    decreases n,
{
    if n == 0 {
        Seq::empty()
    } else {
        let s = query_delete_entries(p, (n - 1) as nat);
        let ik = indexed_key("DeleteMessageBatchRequestEntry."@, n, ".Id"@);
        let hk = indexed_key("DeleteMessageBatchRequestEntry."@, n, ".ReceiptHandle"@);
        if p.contains_key(ik) && p.contains_key(hk) {
            s.push((p[ik], p[hk]))
        } else {
            s
        }
    }
}

/// The non-empty parts of a list.
pub open spec fn non_empty(ss: Seq<Seq<char>>) -> Seq<Seq<char>>
    decreases ss.len(),
{
    if ss.len() == 0 {
        Seq::empty()
    } else if ss.last().len() == 0 {
        non_empty(ss.drop_last())
    } else {
        non_empty(ss.drop_last()).push(ss.last())
    }
}

/// The parts joined by `/`.
pub open spec fn slash_join(ss: Seq<Seq<char>>) -> Seq<char>
    decreases ss.len(),
{
    if ss.len() == 0 {
        Seq::empty()
    } else if ss.len() == 1 {
        ss[0]
    } else {
        slash_join(ss.drop_last()) + "/"@ + ss.last()
    }
}

/// The queue URL a request path names: the path's segments under
/// `http://localhost:4566/` when the first is an account id (12 bytes) or
/// `queue`.
pub open spec fn path_queue_url(path: Seq<char>) -> Option<Seq<char>> {
    let segs = non_empty(
        crate::text::split_on(crate::text::trim_start_char(crate::text::trim_end_char(path, '/'), '/'), '/'),
    );
    if segs.len() > 0 && (vstd::utf8::encode_utf8(segs[0]).len() == 12 || segs[0] == "queue"@) {
        Some("http://localhost:4566/"@ + slash_join(segs))
    } else {
        None
    }
}

/// The queue URL of a query request: the `QueueUrl` parameter, else the one
/// in the path, else empty.
pub open spec fn query_queue_url(p: Map<Seq<char>, Seq<char>>, path: Seq<char>) -> Seq<char> {
    if p.contains_key("QueueUrl"@) {
        p["QueueUrl"@]
    } else {
        match path_queue_url(path) {
            Some(u) => u,
            None => Seq::empty(),
        }
    }
}

fn queue_url_from_path(path: &str) -> (r: Option<String>)
    ensures
        opt_text(r) == path_queue_url(path@),
{
    let a = crate::text::trim_end_matches_char(path, '/');
    let b = crate::text::trim_start_matches_char(a.as_str(), '/');
    let parts = crate::text::split_char(b.as_str(), '/');
    let ghost all = views(parts@);
    let mut segs: Vec<String> = Vec::new();
    let mut i: usize = 0;
    assert(all.take(0) =~= Seq::<Seq<char>>::empty());
    while i < parts.len()
        invariant
            all == views(parts@),
            i <= all.len(),
            views(segs@) == non_empty(all.take(i as int)),
        decreases all.len() - i,
    {
        assert(all.take(i + 1).drop_last() =~= all.take(i as int));
        assert(all.take(i + 1).last() == parts@[i as int]@);
        if parts[i].as_str().unicode_len() > 0 {
            let ghost before = segs@;
            segs.push(parts[i].clone());
            assert(views(segs@) =~= views(before).push(parts@[i as int]@));
        } else {
            assert(parts@[i as int]@.len() == 0);
        }
        i = i + 1;
    }
    assert(all.take(all.len() as int) =~= all);
    let ghost sv = views(segs@);
    assert(sv == non_empty(
        crate::text::split_on(crate::text::trim_start_char(crate::text::trim_end_char(path@, '/'), '/'), '/'),
    ));
    if segs.len() == 0 {
        return None;
    }
    let first = segs[0].as_str();
    assert(sv[0] == first@);
    let is_account = crate::runtime::utf8_bytes(first).len() == 12;
    assert(is_account == (vstd::utf8::encode_utf8(sv[0]).len() == 12));
    if !(is_account || str_eq(first, "queue")) {
        return None;
    }
    let mut url = String::new();
    append(&mut url, "http://localhost:4566/");
    let ghost head = url@;
    let mut j: usize = 0;
    assert(sv.take(0) =~= Seq::<Seq<char>>::empty());
    while j < segs.len()
        invariant
            sv == views(segs@),
            j <= sv.len(),
            url@ == head + slash_join(sv.take(j as int)),
        decreases sv.len() - j,
    {
        assert(sv.take(j + 1).drop_last() =~= sv.take(j as int));
        if j > 0 {
            append(&mut url, "/");
        }
        append(&mut url, segs[j].as_str());
        j = j + 1;
        assert(url@ =~= head + slash_join(sv.take(j as int)));
    }
    assert(sv.take(sv.len() as int) =~= sv);
    assert(url@ == "http://localhost:4566/"@ + slash_join(sv));
    Some(url)
}

/// `r` is the request that query parameters `p`, sent to `path`, make.
pub open spec fn query_request(p: Map<Seq<char>, Seq<char>>, path: Seq<char>, r: Result<SqsRequest, SqsError>) -> bool {
    let action = match param(p, "Action"@) {
        Some(a) => a,
        None => Seq::empty(),
    };
    let url = query_queue_url(p, path);
    match sqs_action_of(action) {
        SqsAction::CreateQueue => match param(p, "QueueName"@) {
            None => r matches Err(e) && missing_param(e, "QueueName"@),
            Some(n) => r matches Ok(SqsRequest::CreateQueue { name, attributes }) && name@ == n && attributes.wf()
                && texts(attributes) == query_attributes(p, 20),
        },
        SqsAction::GetQueueUrl => match param(p, "QueueName"@) {
            None => r matches Err(e) && missing_param(e, "QueueName"@),
            Some(n) => r matches Ok(SqsRequest::GetQueueUrl { name }) && name@ == n,
        },
        SqsAction::ListQueues => r matches Ok(SqsRequest::ListQueues { prefix }) && opt_text(prefix) == param(
            p,
            "QueueNamePrefix"@,
        ),
        SqsAction::GetQueueAttributes => r matches Ok(SqsRequest::GetQueueAttributes { queue_url, names })
            && queue_url@ == url && views(names@) == (match param(p, "AttributeName"@) {
            Some(a) => query_names(p, 20).push(a),
            None => query_names(p, 20),
        }),
        SqsAction::SetQueueAttributes => r matches Ok(SqsRequest::SetQueueAttributes { queue_url, attributes })
            && queue_url@ == url && attributes.wf() && texts(attributes) == query_attributes(p, 20),
        SqsAction::DeleteQueue => r matches Ok(SqsRequest::DeleteQueue { queue_url }) && queue_url@ == url,
        SqsAction::PurgeQueue => r matches Ok(SqsRequest::PurgeQueue { queue_url }) && queue_url@ == url,
        SqsAction::ListDeadLetterSourceQueues => r matches Ok(SqsRequest::ListDeadLetterSourceQueues { queue_url })
            && queue_url@ == url,
        SqsAction::SendMessage => match param(p, "MessageBody"@) {
            None => r matches Err(e) && missing_param(e, "MessageBody"@),
            Some(body_text) => r matches Ok(
                SqsRequest::SendMessage { queue_url, body, delay_seconds, attributes, group_id, deduplication_id },
            ) && queue_url@ == url && body@ == body_text && delay_seconds == number_param(p, "DelaySeconds"@)
                && attributes.wf() && attributes@.map_values(|a: MessageAttributeValue| a@) == query_message_attributes(
                p,
                10,
            ) && opt_text(group_id) == param(p, "MessageGroupId"@) && opt_text(deduplication_id) == param(
                p,
                "MessageDeduplicationId"@,
            ),
        },
        SqsAction::SendMessageBatch => r matches Ok(SqsRequest::SendMessageBatch { queue_url, entries })
            && queue_url@ == url && entries@.map_values(|e: SendMessageBatchEntry| send_entry_view(e))
            == query_send_entries(p, 10) && forall|i: int|
            0 <= i < entries@.len() ==> (#[trigger] entries@[i]).message_attributes is None,
        SqsAction::ReceiveMessage => r matches Ok(
            SqsRequest::ReceiveMessage { queue_url, max_number_of_messages, visibility_timeout, wait_time_seconds },
        ) && queue_url@ == url && max_number_of_messages == (match number_param(p, "MaxNumberOfMessages"@) {
            Some(n) => n,
            None => 1,
        }) && visibility_timeout == number_param(p, "VisibilityTimeout"@) && wait_time_seconds == number_param(
            p,
            "WaitTimeSeconds"@,
        ),
        SqsAction::DeleteMessage => match param(p, "ReceiptHandle"@) {
            None => r matches Err(e) && missing_param(e, "ReceiptHandle"@),
            Some(h) => r matches Ok(SqsRequest::DeleteMessage { queue_url, receipt_handle }) && queue_url@ == url
                && receipt_handle@ == h,
        },
        SqsAction::DeleteMessageBatch => r matches Ok(SqsRequest::DeleteMessageBatch { queue_url, entries })
            && queue_url@ == url && entries@.map_values(|e: DeleteMessageBatchEntry| (e.id@, e.receipt_handle@))
            == query_delete_entries(p, 10),
        SqsAction::ChangeMessageVisibility => match param(p, "ReceiptHandle"@) {
            None => r matches Err(e) && missing_param(e, "ReceiptHandle"@),
            Some(h) => match number_param(p, "VisibilityTimeout"@) {
                None => r matches Err(e) && missing_param(e, "VisibilityTimeout"@),
                Some(vt) => r matches Ok(
                    SqsRequest::ChangeMessageVisibility { queue_url, receipt_handle, visibility_timeout },
                ) && queue_url@ == url && receipt_handle@ == h && visibility_timeout == vt,
            },
        },
        SqsAction::Unknown => r matches Err(e) && e.kind == SqsErrorKind::BadRequest && e.message@
            == "Unsupported SQS Query Action: "@ + action,
    }
}

pub fn get_param(p: &Table<String>, k: &str) -> (r: Option<String>)
    requires
        p.wf(),
    ensures
        opt_text(r) == param(texts(*p), k@),
{
    match p.get(k) {
        Some(v) => Some(v.clone()),
        None => None,
    }
}

fn get_number(p: &Table<String>, k: &str) -> (r: Option<u32>)
    requires
        p.wf(),
    ensures
        r == number_param(texts(*p), k@),
{
    match p.get(k) {
        Some(v) => crate::text::parse_u32(v.as_str()),
        None => None,
    }
}

fn attributes_from_query(p: &Table<String>) -> (t: Table<String>)
    requires
        p.wf(),
    ensures
        t.wf(),
        texts(t) == query_attributes(texts(*p), 20),
{
    let mut t: Table<String> = Table::new();
    assert(texts(t) =~= query_attributes(texts(*p), 0));
    let mut i: u64 = 1;
    while i <= 20
        invariant
            p.wf(),
            t.wf(),
            1 <= i <= 21,
            texts(t) == query_attributes(texts(*p), (i - 1) as nat),
        decreases 21 - i,
    {
        let nk = key_of("Attribute.", i, ".Name");
        let vk = key_of("Attribute.", i, ".Value");
        match (p.get(nk.as_str()), p.get(vk.as_str())) {
            (Some(k), Some(v)) => {
                let ghost before = t@;
                t.insert(k.clone(), v.clone());
                proof {
                    lemma_map_values_insert(before, k@, t@[k@], |v: String| v@);
                }
            },
            _ => {},
        }
        i = i + 1;
    }
    t
}

fn names_from_query(p: &Table<String>) -> (r: Vec<String>)
    requires
        p.wf(),
    ensures
        views(r@) == (match param(texts(*p), "AttributeName"@) {
            Some(a) => query_names(texts(*p), 20).push(a),
            None => query_names(texts(*p), 20),
        }),
{
    let mut r: Vec<String> = Vec::new();
    assert(views(r@) =~= query_names(texts(*p), 0));
    let mut i: u64 = 1;
    while i <= 20
        invariant
            p.wf(),
            1 <= i <= 21,
            views(r@) == query_names(texts(*p), (i - 1) as nat),
        decreases 21 - i,
    {
        let k = key_of("AttributeName.", i, "");
        match p.get(k.as_str()) {
            Some(v) => {
                let ghost before = r@;
                r.push(v.clone());
                assert(views(r@) =~= views(before).push(v@));
            },
            None => {},
        }
        i = i + 1;
    }
    match p.get("AttributeName") {
        Some(v) => {
            let ghost before = r@;
            r.push(v.clone());
            assert(views(r@) =~= views(before).push(v@));
        },
        None => {},
    }
    r
}

fn message_attributes_from_query(p: &Table<String>) -> (t: Table<MessageAttributeValue>)
    requires
        p.wf(),
    ensures
        t.wf(),
        t@.map_values(|a: MessageAttributeValue| a@) == query_message_attributes(texts(*p), 10),
{
    let mut t: Table<MessageAttributeValue> = Table::new();
    assert(t@.map_values(|a: MessageAttributeValue| a@) =~= query_message_attributes(texts(*p), 0));
    let mut i: u64 = 1;
    while i <= 10
        invariant
            p.wf(),
            t.wf(),
            1 <= i <= 11,
            t@.map_values(|a: MessageAttributeValue| a@) == query_message_attributes(texts(*p), (i - 1) as nat),
        decreases 11 - i,
    {
        let nk = key_of("MessageAttribute.", i, ".Name");
        let dk = key_of("MessageAttribute.", i, ".Value.DataType");
        let sk = key_of("MessageAttribute.", i, ".Value.StringValue");
        match (p.get(nk.as_str()), p.get(dk.as_str())) {
            (Some(k), Some(dt)) => {
                let a = MessageAttributeValue {
                    data_type: dt.clone(),
                    string_value: get_param(p, sk.as_str()),
                    binary_value: None,
                };
                let ghost before = t@;
                let ghost av = a;
                t.insert(k.clone(), a);
                proof {
                    lemma_map_values_insert(before, k@, av, |a: MessageAttributeValue| a@);
                }
            },
            _ => {},
        }
        i = i + 1;
    }
    t
}

fn send_entries_from_query(p: &Table<String>) -> (r: Vec<SendMessageBatchEntry>)
    requires
        p.wf(),
    ensures
        r@.map_values(|e: SendMessageBatchEntry| send_entry_view(e)) == query_send_entries(texts(*p), 10),
        forall|i: int| 0 <= i < r@.len() ==> (#[trigger] r@[i]).message_attributes is None,
{
    let mut r: Vec<SendMessageBatchEntry> = Vec::new();
    assert(r@.map_values(|e: SendMessageBatchEntry| send_entry_view(e)) =~= query_send_entries(texts(*p), 0));
    let mut i: u64 = 1;
    while i <= 10
        invariant
            p.wf(),
            1 <= i <= 11,
            r@.map_values(|e: SendMessageBatchEntry| send_entry_view(e)) == query_send_entries(texts(*p), (i - 1) as nat),
            forall|j: int| 0 <= j < r@.len() ==> (#[trigger] r@[j]).message_attributes is None,
        decreases 11 - i,
    {
        let h = "SendMessageBatchRequestEntry.";
        let ik = key_of(h, i, ".Id");
        let bk = key_of(h, i, ".MessageBody");
        match (p.get(ik.as_str()), p.get(bk.as_str())) {
            (Some(id), Some(body)) => {
                let dk = key_of(h, i, ".DelaySeconds");
                let gk = key_of(h, i, ".MessageGroupId");
                let xk = key_of(h, i, ".MessageDeduplicationId");
                let e = SendMessageBatchEntry {
                    id: id.clone(),
                    message_body: body.clone(),
                    delay_seconds: get_number(p, dk.as_str()),
                    message_attributes: None,
                    message_group_id: get_param(p, gk.as_str()),
                    message_deduplication_id: get_param(p, xk.as_str()),
                };
                let ghost before = r@;
                r.push(e);
                assert(r@.map_values(|e: SendMessageBatchEntry| send_entry_view(e)) =~= before.map_values(
                    |e: SendMessageBatchEntry| send_entry_view(e),
                ).push(send_entry_view(r@.last())));
            },
            _ => {},
        }
        i = i + 1;
    }
    r
}

fn delete_entries_from_query(p: &Table<String>) -> (r: Vec<DeleteMessageBatchEntry>)
    requires
        p.wf(),
    ensures
        r@.map_values(|e: DeleteMessageBatchEntry| (e.id@, e.receipt_handle@)) == query_delete_entries(texts(*p), 10),
{
    let mut r: Vec<DeleteMessageBatchEntry> = Vec::new();
    assert(r@.map_values(|e: DeleteMessageBatchEntry| (e.id@, e.receipt_handle@)) =~= query_delete_entries(
        texts(*p),
        0,
    ));
    let mut i: u64 = 1;
    while i <= 10
        invariant
            p.wf(),
            1 <= i <= 11,
            r@.map_values(|e: DeleteMessageBatchEntry| (e.id@, e.receipt_handle@)) == query_delete_entries(
                texts(*p),
                (i - 1) as nat,
            ),
        decreases 11 - i,
    {
        let ik = key_of("DeleteMessageBatchRequestEntry.", i, ".Id");
        let hk = key_of("DeleteMessageBatchRequestEntry.", i, ".ReceiptHandle");
        match (p.get(ik.as_str()), p.get(hk.as_str())) {
            (Some(id), Some(h)) => {
                let ghost before = r@;
                r.push(DeleteMessageBatchEntry { id: id.clone(), receipt_handle: h.clone() });
                assert(r@.map_values(|e: DeleteMessageBatchEntry| (e.id@, e.receipt_handle@)) =~= before.map_values(
                    |e: DeleteMessageBatchEntry| (e.id@, e.receipt_handle@),
                ).push((id@, h@)));
            },
            _ => {},
        }
        i = i + 1;
    }
    r
}

fn required_param(p: &Table<String>, k: &str) -> (r: Result<String, SqsError>)
    requires
        p.wf(),
    ensures
        match param(texts(*p), k@) {
            Some(v) => r matches Ok(s) && s@ == v,
            None => r matches Err(e) && missing_param(e, k@),
        },
{
    match p.get(k) {
        Some(v) => Ok(v.clone()),
        None => Err(missing(k)),
    }
}

/// Reads the request that query parameters make, sent to `path`.
#[verifier::rlimit(80)]
pub fn parse_sqs_query(p: &Table<String>, path: &str) -> (r: Result<SqsRequest, SqsError>)
    requires
        p.wf(),
    ensures
        query_request(texts(*p), path@, r),
        r matches Ok(q) ==> q.wf(),
{
    let action = match p.get("Action") {
        Some(a) => a.clone(),
        None => String::new(),
    };
    assert(action@ == (match param(texts(*p), "Action"@) {
        Some(a) => a,
        None => Seq::<char>::empty(),
    }));
    let queue_url = match p.get("QueueUrl") {
        Some(u) => u.clone(),
        None => match queue_url_from_path(path) {
            Some(u) => u,
            None => String::new(),
        },
    };
    assert(queue_url@ == query_queue_url(texts(*p), path@));
    match parse_sqs_action(action.as_str()) {
        SqsAction::CreateQueue => {
            let name = required_param(p, "QueueName")?;
            Ok(SqsRequest::CreateQueue { name, attributes: attributes_from_query(p) })
        },
        SqsAction::GetQueueUrl => {
            let name = required_param(p, "QueueName")?;
            Ok(SqsRequest::GetQueueUrl { name })
        },
        SqsAction::ListQueues => Ok(SqsRequest::ListQueues { prefix: get_param(p, "QueueNamePrefix") }),
        SqsAction::GetQueueAttributes => Ok(
            SqsRequest::GetQueueAttributes { queue_url, names: names_from_query(p) },
        ),
        SqsAction::SetQueueAttributes => Ok(
            SqsRequest::SetQueueAttributes { queue_url, attributes: attributes_from_query(p) },
        ),
        SqsAction::DeleteQueue => Ok(SqsRequest::DeleteQueue { queue_url }),
        SqsAction::PurgeQueue => Ok(SqsRequest::PurgeQueue { queue_url }),
        SqsAction::ListDeadLetterSourceQueues => Ok(SqsRequest::ListDeadLetterSourceQueues { queue_url }),
        SqsAction::SendMessage => {
            let body = required_param(p, "MessageBody")?;
            Ok(
                SqsRequest::SendMessage {
                    queue_url,
                    body,
                    delay_seconds: get_number(p, "DelaySeconds"),
                    attributes: message_attributes_from_query(p),
                    group_id: get_param(p, "MessageGroupId"),
                    deduplication_id: get_param(p, "MessageDeduplicationId"),
                },
            )
        },
        SqsAction::SendMessageBatch => Ok(
            SqsRequest::SendMessageBatch { queue_url, entries: send_entries_from_query(p) },
        ),
        SqsAction::ReceiveMessage => {
            let max = match get_number(p, "MaxNumberOfMessages") {
                Some(n) => n,
                None => 1,
            };
            Ok(
                SqsRequest::ReceiveMessage {
                    queue_url,
                    max_number_of_messages: max,
                    visibility_timeout: get_number(p, "VisibilityTimeout"),
                    wait_time_seconds: get_number(p, "WaitTimeSeconds"),
                },
            )
        },
        SqsAction::DeleteMessage => {
            let receipt_handle = required_param(p, "ReceiptHandle")?;
            Ok(SqsRequest::DeleteMessage { queue_url, receipt_handle })
        },
        SqsAction::DeleteMessageBatch => Ok(
            SqsRequest::DeleteMessageBatch { queue_url, entries: delete_entries_from_query(p) },
        ),
        SqsAction::ChangeMessageVisibility => {
            let receipt_handle = required_param(p, "ReceiptHandle")?;
            match get_number(p, "VisibilityTimeout") {
                Some(visibility_timeout) => Ok(
                    SqsRequest::ChangeMessageVisibility { queue_url, receipt_handle, visibility_timeout },
                ),
                None => Err(missing("VisibilityTimeout")),
            }
        },
        SqsAction::Unknown => {
            let mut m = String::new();
            append(&mut m, "Unsupported SQS Query Action: ");
            append(&mut m, action.as_str());
            Err(SqsError { kind: SqsErrorKind::BadRequest, message: m })
        },
    }
}


// ---------------------------------------------------------------------------
// Carrying out a request.

/// What a request to the queue service gives back.
pub enum SqsAnswer {
    Url(String),
    Urls(Vec<String>),
    SourceUrls(Vec<String>),
    Attributes(Table<String>),
    Sent { message_id: String, md5: String, sequence_number: Option<String> },
    SentBatch { successful: Vec<SendMessageBatchResultEntry>, failed: Vec<BatchErrorEntry> },
    Messages(Vec<SqsMessage>),
    DeletedBatch { successful: Vec<String>, failed: Vec<BatchErrorEntry> },
    Done,
}

impl SqsAnswer {
    /// The tables and messages in the answer are well formed.
    pub open spec fn wf(&self) -> bool {
        match self {
            SqsAnswer::Attributes(t) => t.wf(),
            SqsAnswer::Messages(ms) => forall|i: int| 0 <= i < ms@.len() ==> (#[trigger] ms@[i]).wf(),
            _ => true,
        }
    }
}

/// `r` is what carrying out request `q` on service `e0` gives, `e1` the
/// service after it.
pub open spec fn performed(e0: SqsEngine, e1: SqsEngine, q: SqsRequest, r: Result<SqsAnswer, SqsError>) -> bool {
    &&& r matches Ok(a) ==> a.wf()
    &&& match q {
        SqsRequest::CreateQueue { name, attributes } => match r {
            Ok(SqsAnswer::Url(u)) => queue_created(e0, e1, name@, Some(attributes), Ok(u)),
            _ => false,
        },
        SqsRequest::GetQueueUrl { name } => e1 == e0 && match r {
            Ok(SqsAnswer::Url(u)) => e0@.contains_key(resolved_name(name@)) && u@ == e0@[resolved_name(name@)].url,
            Err(e) => !e0@.contains_key(resolved_name(name@)) && crate::sqs::engine::missing_queue(e),
            _ => false,
        },
        SqsRequest::ListQueues { prefix } => e1 == e0 && (r matches Ok(SqsAnswer::Urls(v)) && views(v@) == listed_urls(
            e0.queue_names(),
            e0.account(),
            opt_text(prefix),
        )),
        SqsRequest::GetQueueAttributes { queue_url, names } => match r {
            Ok(SqsAnswer::Attributes(t)) => attributes_read(e0, e1, queue_url@, Ok(t)),
            Err(e) => attributes_read(e0, e1, queue_url@, Err(e)),
            _ => false,
        },
        SqsRequest::SetQueueAttributes { queue_url, attributes } => match r {
            Ok(SqsAnswer::Done) => attributes_set(e0, e1, queue_url@, attributes, Ok(())),
            Err(e) => attributes_set(e0, e1, queue_url@, attributes, Err(e)),
            _ => false,
        },
        SqsRequest::DeleteQueue { queue_url } => match r {
            Ok(SqsAnswer::Done) => queue_deleted(e0, e1, queue_url@, Ok(())),
            Err(e) => queue_deleted(e0, e1, queue_url@, Err(e)),
            _ => false,
        },
        SqsRequest::ListDeadLetterSourceQueues { queue_url } => e1 == e0 && match r {
            Ok(SqsAnswer::SourceUrls(v)) => e0@.contains_key(resolved_name(queue_url@)) && views(v@)
                == crate::sqs::engine::dead_letter_sources(e0@, e0.queue_names(), e0@[resolved_name(queue_url@)].arn),
            Err(e) => !e0@.contains_key(resolved_name(queue_url@)) && crate::sqs::engine::missing_queue(e),
            _ => false,
        },
        SqsRequest::PurgeQueue { queue_url } => match r {
            Ok(SqsAnswer::Done) => queue_purged(e0, e1, queue_url@, Ok(())),
            Err(e) => queue_purged(e0, e1, queue_url@, Err(e)),
            _ => false,
        },
        SqsRequest::SendMessage { queue_url, body, delay_seconds, attributes, group_id, deduplication_id } => match r {
            Ok(SqsAnswer::Sent { message_id, md5, sequence_number }) => message_sent(
                e0,
                e1,
                queue_url@,
                body@,
                delay_seconds,
                Some(attributes),
                group_id,
                deduplication_id,
                Ok((message_id, md5, sequence_number)),
            ),
            Err(e) => message_sent(
                e0,
                e1,
                queue_url@,
                body@,
                delay_seconds,
                Some(attributes),
                group_id,
                deduplication_id,
                Err(e),
            ),
            _ => false,
        },
        SqsRequest::SendMessageBatch { queue_url, entries } => match r {
            Ok(SqsAnswer::SentBatch { successful, failed }) => batch_sent(
                e0,
                e1,
                queue_url@,
                entries@,
                Ok((successful, failed)),
            ),
            _ => false,
        },
        SqsRequest::ReceiveMessage { queue_url, max_number_of_messages, visibility_timeout, .. } => match r {
            Ok(SqsAnswer::Messages(ms)) => messages_received(e0, e1, queue_url@, max_number_of_messages, visibility_timeout, Ok(ms)),
            Err(e) => messages_received(e0, e1, queue_url@, max_number_of_messages, visibility_timeout, Err(e)),
            _ => false,
        },
        SqsRequest::DeleteMessage { queue_url, receipt_handle } => match r {
            Ok(SqsAnswer::Done) => message_deleted(e0, e1, queue_url@, receipt_handle@, Ok(())),
            Err(e) => message_deleted(e0, e1, queue_url@, receipt_handle@, Err(e)),
            _ => false,
        },
        SqsRequest::DeleteMessageBatch { queue_url, entries } => match r {
            Ok(SqsAnswer::DeletedBatch { successful, failed }) => batch_deleted(
                e0,
                e1,
                queue_url@,
                entries@,
                Ok((successful, failed)),
            ),
            Err(e) => batch_deleted(e0, e1, queue_url@, entries@, Err(e)),
            _ => false,
        },
        SqsRequest::ChangeMessageVisibility { queue_url, .. } => match r {
            Ok(SqsAnswer::Done) => visibility_changed(e0, e1, queue_url@, Ok(())),
            Err(e) => visibility_changed(e0, e1, queue_url@, Err(e)),
            _ => false,
        },
    }
}

/// Carries out a request on the service. A receive takes what is waiting now;
/// waiting for messages to arrive is left to the caller.
pub fn perform(engine: &mut SqsEngine, q: SqsRequest) -> (r: Result<SqsAnswer, SqsError>)
    requires
        old(engine).wf(),
        q.wf(),
    ensures
        performed(*old(engine), *final(engine), q, r),
{
    let ghost gq = q;
    match q {
        SqsRequest::CreateQueue { name, attributes } => {
            let u = engine.create_queue(name.as_str(), Some(attributes));
            match u {
                Ok(u) => Ok(SqsAnswer::Url(u)),
                Err(e) => Err(e),
            }
        },
        SqsRequest::GetQueueUrl { name } => match engine.get_queue_url(name.as_str()) {
            Ok(u) => Ok(SqsAnswer::Url(u)),
            Err(e) => Err(e),
        },
        SqsRequest::ListQueues { prefix } => {
            let r = match &prefix {
                Some(p) => engine.list_queues(Some(p.as_str())),
                None => engine.list_queues(None),
            };
            match r {
                Ok(v) => Ok(SqsAnswer::Urls(v)),
                Err(e) => Err(e),
            }
        },
        SqsRequest::GetQueueAttributes { queue_url, names } => match engine.get_queue_attributes(
            queue_url.as_str(),
            &names,
        ) {
            Ok(t) => Ok(SqsAnswer::Attributes(t)),
            Err(e) => Err(e),
        },
        SqsRequest::SetQueueAttributes { queue_url, attributes } => match engine.set_queue_attributes(
            queue_url.as_str(),
            &attributes,
        ) {
            Ok(()) => Ok(SqsAnswer::Done),
            Err(e) => Err(e),
        },
        SqsRequest::DeleteQueue { queue_url } => match engine.delete_queue(queue_url.as_str()) {
            Ok(()) => Ok(SqsAnswer::Done),
            Err(e) => Err(e),
        },
        SqsRequest::ListDeadLetterSourceQueues { queue_url } => match engine.list_dead_letter_source_queues(
            queue_url.as_str(),
        ) {
            Ok(v) => Ok(SqsAnswer::SourceUrls(v)),
            Err(e) => Err(e),
        },
        SqsRequest::PurgeQueue { queue_url } => match engine.purge_queue(queue_url.as_str()) {
            Ok(()) => Ok(SqsAnswer::Done),
            Err(e) => Err(e),
        },
        SqsRequest::SendMessage { queue_url, body, delay_seconds, attributes, group_id, deduplication_id } => {
            match engine.send_message(
                queue_url.as_str(),
                body,
                delay_seconds,
                Some(attributes),
                group_id,
                deduplication_id,
            ) {
                Ok((message_id, md5, sequence_number)) => Ok(SqsAnswer::Sent { message_id, md5, sequence_number }),
                Err(e) => Err(e),
            }
        },
        SqsRequest::SendMessageBatch { queue_url, entries } => match engine.send_message_batch(
            queue_url.as_str(),
            entries,
        ) {
            Ok((successful, failed)) => Ok(SqsAnswer::SentBatch { successful, failed }),
            Err(e) => Err(e),
        },
        SqsRequest::ReceiveMessage { queue_url, max_number_of_messages, visibility_timeout, .. } => {
            match engine.receive_message(queue_url.as_str(), max_number_of_messages, visibility_timeout) {
                Ok(ms) => Ok(SqsAnswer::Messages(ms)),
                Err(e) => Err(e),
            }
        },
        SqsRequest::DeleteMessage { queue_url, receipt_handle } => match engine.delete_message(
            queue_url.as_str(),
            receipt_handle.as_str(),
        ) {
            Ok(()) => Ok(SqsAnswer::Done),
            Err(e) => Err(e),
        },
        SqsRequest::DeleteMessageBatch { queue_url, entries } => match engine.delete_message_batch(
            queue_url.as_str(),
            entries,
        ) {
            Ok((successful, failed)) => Ok(SqsAnswer::DeletedBatch { successful, failed }),
            Err(e) => Err(e),
        },
        SqsRequest::ChangeMessageVisibility { queue_url, receipt_handle, visibility_timeout } => {
            match engine.change_message_visibility(queue_url.as_str(), receipt_handle.as_str(), visibility_timeout) {
                Ok(()) => Ok(SqsAnswer::Done),
                Err(e) => Err(e),
            }
        },
    }
}


// ---------------------------------------------------------------------------
// Answers.

/// The content type of the XML answers.
pub const SQS_XML_TYPE: &'static str = "text/xml";

/// The name of an action.
pub open spec fn action_text(a: SqsAction) -> Seq<char> {
    match a {
        SqsAction::CreateQueue => "CreateQueue"@,
        SqsAction::GetQueueUrl => "GetQueueUrl"@,
        SqsAction::ListQueues => "ListQueues"@,
        SqsAction::GetQueueAttributes => "GetQueueAttributes"@,
        SqsAction::SetQueueAttributes => "SetQueueAttributes"@,
        SqsAction::DeleteQueue => "DeleteQueue"@,
        SqsAction::PurgeQueue => "PurgeQueue"@,
        SqsAction::ListDeadLetterSourceQueues => "ListDeadLetterSourceQueues"@,
        SqsAction::SendMessage => "SendMessage"@,
        SqsAction::SendMessageBatch => "SendMessageBatch"@,
        SqsAction::ReceiveMessage => "ReceiveMessage"@,
        SqsAction::DeleteMessage => "DeleteMessage"@,
        SqsAction::DeleteMessageBatch => "DeleteMessageBatch"@,
        SqsAction::ChangeMessageVisibility => "ChangeMessageVisibility"@,
        SqsAction::Unknown => ""@,
    }
}

/// The name of an action.
pub fn action_name(a: SqsAction) -> (r: &'static str)
    ensures
        r@ == action_text(a),
{
    match a {
        SqsAction::CreateQueue => "CreateQueue",
        SqsAction::GetQueueUrl => "GetQueueUrl",
        SqsAction::ListQueues => "ListQueues",
        SqsAction::GetQueueAttributes => "GetQueueAttributes",
        SqsAction::SetQueueAttributes => "SetQueueAttributes",
        SqsAction::DeleteQueue => "DeleteQueue",
        SqsAction::PurgeQueue => "PurgeQueue",
        SqsAction::ListDeadLetterSourceQueues => "ListDeadLetterSourceQueues",
        SqsAction::SendMessage => "SendMessage",
        SqsAction::SendMessageBatch => "SendMessageBatch",
        SqsAction::ReceiveMessage => "ReceiveMessage",
        SqsAction::DeleteMessage => "DeleteMessage",
        SqsAction::DeleteMessageBatch => "DeleteMessageBatch",
        SqsAction::ChangeMessageVisibility => "ChangeMessageVisibility",
        SqsAction::Unknown => "",
    }
}

/// The JSON text of an answer.
pub open spec fn json_answer(a: SqsAnswer) -> Seq<char> {
    match a {
        SqsAnswer::Url(u) => json_url_answer(u@),
        SqsAnswer::Urls(v) => "{\"QueueUrls\":"@ + json_str_array(views(v@)) + "}"@,
        SqsAnswer::SourceUrls(v) => "{\"queueUrls\":"@ + json_str_array(views(v@)) + "}"@,
        SqsAnswer::Attributes(t) => "{\"Attributes\":"@ + json_object(t) + "}"@,
        SqsAnswer::Sent { message_id, md5, sequence_number } => json_send_answer(
            message_id@,
            md5@,
            opt_text(sequence_number),
        ),
        SqsAnswer::SentBatch { successful, failed } => json_send_batch_answer(successful@, failed@),
        SqsAnswer::Messages(ms) => json_receive_answer(ms@),
        SqsAnswer::DeletedBatch { successful, failed } => json_delete_batch_answer(views(successful@), failed@),
        SqsAnswer::Done => "{}"@,
    }
}

/// The XML text of the answer to action `act`.
pub open spec fn xml_answer(act: SqsAction, a: SqsAnswer, request_id: Seq<char>) -> Seq<char> {
    match a {
        SqsAnswer::Url(u) => xml_url_answer(action_text(act), u@, request_id),
        SqsAnswer::Urls(v) => xml_urls_answer("ListQueues"@, "QueueUrl"@, views(v@), request_id),
        SqsAnswer::SourceUrls(v) => xml_urls_answer("ListDeadLetterSourceQueues"@, "QueueUrl"@, views(v@), request_id),
        SqsAnswer::Attributes(t) => xml_attributes_answer(t, request_id),
        SqsAnswer::Sent { message_id, md5, sequence_number } => xml_send_answer(
            message_id@,
            md5@,
            opt_text(sequence_number),
            request_id,
        ),
        SqsAnswer::SentBatch { successful, failed } => xml_send_batch_answer(successful@, failed@, request_id),
        SqsAnswer::Messages(ms) => xml_receive_answer(ms@, request_id),
        SqsAnswer::DeletedBatch { successful, failed } => xml_delete_batch_answer(
            views(successful@),
            failed@,
            request_id,
        ),
        SqsAnswer::Done => xml_empty_answer(action_text(act), request_id),
    }
}

/// The JSON text of an error with the given code and message.
pub open spec fn json_error_text(code: Seq<char>, message: Seq<char>) -> Seq<char> {
    "{\"__type\":"@ + json_str(code) + ",\"message\":"@ + json_str(message) + "}"@
}

/// The JSON text of an error.
pub open spec fn json_error(e: SqsError) -> Seq<char> {
    json_error_text(e.kind.code_spec(), e.message@)
}

/// The XML text of an error.
pub open spec fn xml_error(e: SqsError, request_id: Seq<char>) -> Seq<char> {
    "<?xml version=\"1.0\"?>\n<ErrorResponse xmlns=\"http://queue.amazonaws.com/doc/2012-11-05/\">\n    <Error>\n        <Type>Sender</Type>"@
        + crate::sqs::codec::xml_line("        "@, "Code"@, e.kind.code_spec()) + crate::sqs::codec::xml_line(
        "        "@,
        "Message"@,
        e.message@,
    ) + "\n        <Detail/>\n    </Error>"@ + crate::sqs::codec::xml_line("    "@, "RequestId"@, request_id)
        + "\n</ErrorResponse>"@
}

/// The answer in JSON.
pub fn render_json(a: &SqsAnswer) -> (r: Reply)
    requires
        a.wf(),
    ensures
        r.status == 200,
        r.content_type@ == JSON_TYPE@,
        r.body@ == json_answer(*a),
{
    let body = match a {
        SqsAnswer::Url(u) => json_create_queue_response(u.as_str()),
        SqsAnswer::Urls(v) => json_list_queues_response(v),
        SqsAnswer::SourceUrls(v) => crate::sqs::codec::json_list_dead_letter_source_queues_response(v),
        SqsAnswer::Attributes(t) => json_get_queue_attributes_response(t),
        SqsAnswer::Sent { message_id, md5, sequence_number } => match sequence_number {
            Some(q) => json_send_message_response(message_id.as_str(), md5.as_str(), Some(q.as_str())),
            None => json_send_message_response(message_id.as_str(), md5.as_str(), None),
        },
        SqsAnswer::SentBatch { successful, failed } => json_send_message_batch_response(successful, failed),
        SqsAnswer::Messages(ms) => json_receive_message_response(ms),
        SqsAnswer::DeletedBatch { successful, failed } => json_delete_message_batch_response(successful, failed),
        SqsAnswer::Done => copy_str("{}"),
    };
    reply(200, JSON_TYPE, body)
}

/// The answer to action `act` in XML.
pub fn render_xml(act: SqsAction, a: &SqsAnswer, request_id: &str) -> (r: Reply)
    requires
        a.wf(),
    ensures
        r.status == 200,
        r.content_type@ == SQS_XML_TYPE@,
        r.body@ == xml_answer(act, *a, request_id@),
{
    let body = match a {
        SqsAnswer::Url(u) => crate::sqs::codec::xml_url_response(action_name(act), u.as_str(), request_id),
        SqsAnswer::Urls(v) => xml_list_queues_response(v, request_id),
        SqsAnswer::SourceUrls(v) => crate::sqs::codec::xml_list_dead_letter_source_queues_response(v, request_id),
        SqsAnswer::Attributes(t) => xml_get_queue_attributes_response(t, request_id),
        SqsAnswer::Sent { message_id, md5, sequence_number } => match sequence_number {
            Some(q) => xml_send_message_response(message_id.as_str(), md5.as_str(), Some(q.as_str()), request_id),
            None => xml_send_message_response(message_id.as_str(), md5.as_str(), None, request_id),
        },
        SqsAnswer::SentBatch { successful, failed } => xml_send_message_batch_response(successful, failed, request_id),
        SqsAnswer::Messages(ms) => xml_receive_message_response(ms, request_id),
        SqsAnswer::DeletedBatch { successful, failed } => xml_delete_message_batch_response(
            successful,
            failed,
            request_id,
        ),
        SqsAnswer::Done => xml_empty_response(action_name(act), request_id),
    };
    reply(200, SQS_XML_TYPE, body)
}

/// The answer to a failed request, in JSON.
pub fn json_error_response(e: &SqsError) -> (r: Reply)
    ensures
        r.status == e.kind.status_spec(),
        r.content_type@ == JSON_TYPE@,
        r.body@ == json_error(*e),
{
    let mut x = String::new();
    append(&mut x, "{\"__type\":");
    crate::http::append_json_str(&mut x, e.kind.code());
    append(&mut x, ",\"message\":");
    crate::http::append_json_str(&mut x, e.message.as_str());
    append(&mut x, "}");
    assert(x@ =~= json_error(*e));
    reply(e.kind.status(), JSON_TYPE, x)
}

/// The answer to a failed request, in XML.
pub fn xml_error_response(e: &SqsError, request_id: &str) -> (r: Reply)
    ensures
        r.status == e.kind.status_spec(),
        r.content_type@ == SQS_XML_TYPE@,
        r.body@ == xml_error(*e, request_id@),
{
    let mut x = String::new();
    append(
        &mut x,
        "<?xml version=\"1.0\"?>\n<ErrorResponse xmlns=\"http://queue.amazonaws.com/doc/2012-11-05/\">\n    <Error>\n        <Type>Sender</Type>",
    );
    crate::sqs::codec::append_line(&mut x, "        ", "Code", e.kind.code());
    crate::sqs::codec::append_line(&mut x, "        ", "Message", e.message.as_str());
    append(&mut x, "\n        <Detail/>\n    </Error>");
    crate::sqs::codec::append_line(&mut x, "    ", "RequestId", request_id);
    append(&mut x, "\n</ErrorResponse>");
    assert(x@ =~= xml_error(*e, request_id@));
    reply(e.kind.status(), SQS_XML_TYPE, x)
}

/// The answer to failed request in the protocol asked for.
pub fn make_sqs_error_response(e: &SqsError, request_id: &str, is_json: bool) -> (r: Reply)
    ensures
        r.status == e.kind.status_spec(),
        is_json ==> r.content_type@ == JSON_TYPE@ && r.body@ == json_error(*e),
        !is_json ==> r.content_type@ == SQS_XML_TYPE@ && r.body@ == xml_error(*e, request_id@),
{
    if is_json {
        json_error_response(e)
    } else {
        xml_error_response(e, request_id)
    }
}

/// Whether a request speaks the JSON protocol: its target names the service, or
/// its content type is JSON 1.0.
pub open spec fn is_json_request(target: Option<Seq<char>>, content_type: Option<Seq<char>>) -> bool {
    (target matches Some(t) && crate::text::is_prefix("AmazonSQS"@, t)) || (content_type matches Some(c)
        && crate::text::find_sub(c, "application/x-amz-json-1.0"@) is Some)
}

/// Whether a request speaks the JSON protocol.
pub fn is_json_protocol(target: Option<&str>, content_type: Option<&str>) -> (r: bool)
    ensures
        r == is_json_request(
            match target {
                Some(t) => Some(t@),
                None => None,
            },
            match content_type {
                Some(c) => Some(c@),
                None => None,
            },
        ),
{
    let by_target = match target {
        Some(t) => crate::text::starts_with(t, "AmazonSQS"),
        None => false,
    };
    let by_type = match content_type {
        Some(c) => crate::text::contains_str(c, "application/x-amz-json-1.0"),
        None => false,
    };
    by_target || by_type
}

/// The action named by a JSON request's target: the target without its
/// `AmazonSQS.` prefix.
pub open spec fn json_action(target: Seq<char>) -> Seq<char> {
    if crate::text::is_prefix("AmazonSQS."@, target) {
        target.subrange(10, target.len() as int)
    } else {
        target
    }
}

/// How a JSON request went: `pr` is the request read from it, `res` what
/// carrying it out gave, and `r` the answer.
pub open spec fn json_handled(
    e0: SqsEngine,
    e1: SqsEngine,
    act: SqsAction,
    b: JsonValue,
    pr: Result<SqsRequest, SqsError>,
    res: Result<SqsAnswer, SqsError>,
    r: Reply,
) -> bool {
    &&& json_request(act, b, pr)
    &&& r.content_type@ == JSON_TYPE@
    &&& match pr {
        Err(e) => e1 == e0 && r.status == e.kind.status_spec() && r.body@ == json_error(e),
        Ok(q) => performed(e0, e1, q, res) && match res {
            Ok(a) => r.status == 200 && r.body@ == json_answer(a),
            Err(e) => r.status == e.kind.status_spec() && r.body@ == json_error(e),
        },
    }
}

/// How a request of the JSON protocol whose target is `target` and whose body
/// is `body` was answered by `r`: an unknown action is refused, any other is
/// read from the body, carried out and answered.
pub open spec fn json_answered(e0: SqsEngine, e1: SqsEngine, target: Seq<char>, body: JsonValue, r: Reply) -> bool {
    let a = json_action(target);
    let act = sqs_action_of(a);
    &&& act == SqsAction::Unknown ==> e1 == e0 && r.status == 400 && r.content_type@ == JSON_TYPE@ && r.body@
        == json_error_text("BadRequest"@, "Unsupported SQS Action: "@ + a)
    &&& act != SqsAction::Unknown ==> exists|pr: Result<SqsRequest, SqsError>, res: Result<SqsAnswer, SqsError>|
        #[trigger] json_handled(e0, e1, act, body, pr, res, r)
}

/// Handles a request of the JSON protocol, whose target names the action.
pub fn handle_sqs_json(engine: &mut SqsEngine, target: &str, body: &JsonValue) -> (r: Reply)
    requires
        old(engine).wf(),
    ensures
        final(engine).wf(),
        json_answered(*old(engine), *final(engine), target@, *body, r),
{
    proof {
        reveal_strlit("AmazonSQS.");
    }
    let action = match strip_prefix(target, "AmazonSQS.") {
        Some(a) => a,
        None => copy_str(target),
    };
    assert(action@ == json_action(target@));
    let act = parse_sqs_action(action.as_str());
    if matches!(act, SqsAction::Unknown) {
        let mut m = String::new();
        append(&mut m, "Unsupported SQS Action: ");
        append(&mut m, action.as_str());
        return json_error_response(&SqsError { kind: SqsErrorKind::BadRequest, message: m });
    }
    let pr = parse_sqs_json(act, body);
    match pr {
        Err(e) => {
            let r = json_error_response(&e);
            assert(json_handled(*old(engine), *final(engine), act, *body, Err(e), Err(e), r));
            r
        },
        Ok(q) => {
            let ghost gq = q;
            let res = perform(engine, q);
            let r = match &res {
                Ok(a) => render_json(a),
                Err(e) => json_error_response(e),
            };
            assert(json_handled(*old(engine), *final(engine), act, *body, Ok(gq), res, r));
            r
        },
    }
}


/// An optional string as text.
pub open spec fn str_view(o: Option<&str>) -> Option<Seq<char>> {
    match o {
        Some(q) => Some(q@),
        None => None,
    }
}

/// The action a query request names.
pub open spec fn query_action(p: Map<Seq<char>, Seq<char>>) -> SqsAction {
    sqs_action_of(
        match param(p, "Action"@) {
            Some(a) => a,
            None => Seq::empty(),
        },
    )
}

/// How a query request went: `pr` is the request read from parameters `p`
/// sent to `path`, `res` what carrying it out gave, and `r` the answer.
pub open spec fn query_handled(
    e0: SqsEngine,
    e1: SqsEngine,
    p: Map<Seq<char>, Seq<char>>,
    path: Seq<char>,
    request_id: Seq<char>,
    pr: Result<SqsRequest, SqsError>,
    res: Result<SqsAnswer, SqsError>,
    r: Reply,
) -> bool {
    &&& query_request(p, path, pr)
    &&& r.content_type@ == SQS_XML_TYPE@
    &&& match pr {
        Err(e) => e1 == e0 && r.status == e.kind.status_spec() && r.body@ == xml_error(e, request_id),
        Ok(q) => performed(e0, e1, q, res) && match res {
            Ok(a) => r.status == 200 && r.body@ == xml_answer(query_action(p), a, request_id),
            Err(e) => r.status == e.kind.status_spec() && r.body@ == xml_error(e, request_id),
        },
    }
}

/// Handles a request of the query protocol: parameters from the query string
/// and the form body, the queue possibly named by the path.
pub fn handle_sqs_query(
    engine: &mut SqsEngine,
    query: Option<&str>,
    path: &str,
    body: &[u8],
    request_id: &str,
) -> (r: Reply)
    requires
        old(engine).wf(),
    ensures
        final(engine).wf(),
        exists|pr: Result<SqsRequest, SqsError>, res: Result<SqsAnswer, SqsError>|
            #[trigger] query_handled(
                *old(engine),
                *final(engine),
                crate::http::request_param_map(str_view(query), body@),
                path@,
                request_id@,
                pr,
                res,
                r,
            ),
{
    let p = crate::http::request_params(query, body);
    let ghost pm = texts(p);
    let action = match p.get("Action") {
        Some(a) => a.clone(),
        None => String::new(),
    };
    let act = parse_sqs_action(action.as_str());
    assert(act == query_action(pm));
    let pr = parse_sqs_query(&p, path);
    match pr {
        Err(e) => {
            let r = xml_error_response(&e, request_id);
            assert(query_handled(*old(engine), *final(engine), pm, path@, request_id@, Err(e), Err(e), r));
            r
        },
        Ok(q) => {
            let ghost gq = q;
            let res = perform(engine, q);
            let r = match &res {
                Ok(a) => render_xml(act, a, request_id),
                Err(e) => xml_error_response(e, request_id),
            };
            assert(query_handled(*old(engine), *final(engine), pm, path@, request_id@, Ok(gq), res, r));
            r
        },
    }
}

/// Handles a request: the JSON protocol when its target names the service or
/// its content type is JSON 1.0, the query protocol otherwise. `parsed` is
/// what the JSON reader made of the body; it is read only for a JSON request
/// with a body, which it must be able to read.
pub fn handle_sqs_request(
    engine: &mut SqsEngine,
    target: Option<&str>,
    content_type: Option<&str>,
    query: Option<&str>,
    path: &str,
    body: &[u8],
    parsed: Result<JsonValue, String>,
    request_id: &str,
) -> (r: Reply)
    requires
        old(engine).wf(),
    ensures
        final(engine).wf(),
        is_json_request(str_view(target), str_view(content_type)) ==> {
            &&& body_unreadable(body@, parsed) ==> *final(engine) == *old(engine) && r.status == 400
                && r.content_type@ == JSON_TYPE@ && r.body@ == json_error_text("BadRequest"@, parsed->Err_0@)
            &&& !body_unreadable(body@, parsed) ==> exists|v: JsonValue|
                #[trigger] body_reads_as(body@, parsed, v) && json_answered(
                    *old(engine),
                    *final(engine),
                    match target {
                        Some(t) => t@,
                        None => Seq::empty(),
                    },
                    v,
                    r,
                )
        },
        !is_json_request(str_view(target), str_view(content_type)) ==> exists|
            pr: Result<SqsRequest, SqsError>,
            res: Result<SqsAnswer, SqsError>,
        |
            #[trigger] query_handled(
                *old(engine),
                *final(engine),
                crate::http::request_param_map(str_view(query), body@),
                path@,
                request_id@,
                pr,
                res,
                r,
            ),
{
    if is_json_protocol(target, content_type) {
        match json_request_body(body, parsed) {
            Err(m) => {
                let r = json_error_response(&SqsError { kind: SqsErrorKind::BadRequest, message: m });
                assert(r.status == 400);
                assert(r.body@ == json_error_text("BadRequest"@, parsed->Err_0@));
                r
            },
            Ok(v) => {
                let t = match target {
                    Some(t) => t,
                    None => "",
                };
                proof {
                    reveal_strlit("");
                }
                assert(t@ =~= match target {
                    Some(t) => t@,
                    None => Seq::empty(),
                });
                let r = handle_sqs_json(engine, t, &v);
                assert(body_reads_as(body@, parsed, v));
                r
            },
        }
    } else {
        handle_sqs_query(engine, query, path, body, request_id)
    }
}


/// What long polling does after an answer: wait and ask again, or answer.
#[derive(Debug, Clone, Copy, PartialEq, Eq)]
pub enum PollStep {
    Answer,
    WaitAndRetry,
}

/// Whether an answer is that of a receive that found no message: a success
/// whose body is the empty receive answer of the request's protocol.
pub fn receive_found_none(reply: &Reply, is_json: bool, request_id: &str) -> (r: bool)
    ensures
        r == (reply.status == 200 && reply.body@ == if is_json {
            json_receive_answer(Seq::empty())
        } else {
            xml_receive_answer(Seq::empty(), request_id@)
        }),
{
    let none: Vec<SqsMessage> = Vec::new();
    assert(none@ =~= Seq::<SqsMessage>::empty());
    let empty = if is_json {
        json_receive_message_response(&none)
    } else {
        xml_receive_message_response(&none, request_id)
    };
    reply.status == 200 && str_eq(reply.body.as_str(), empty.as_str())
}

/// The long-poll decision: a receive that found no message is asked again
/// while less time than its wait (in seconds) has passed; anything else is
/// answered.
pub fn long_poll_step(is_receive: bool, found_none: bool, waited_ms: u64, wait_seconds: u32) -> (r: PollStep)
    ensures
        r == (if is_receive && found_none && (waited_ms as int) < wait_seconds * 1000 {
            PollStep::WaitAndRetry
        } else {
            PollStep::Answer
        }),
{
    let limit: u64 = wait_seconds as u64 * 1000;
    if is_receive && found_none && waited_ms < limit {
        PollStep::WaitAndRetry
    } else {
        PollStep::Answer
    }
}

} // verus!
