//! The answers of the queue service: the XML of the query protocol and the JSON
//! of the JSON protocol (keys in ascending order, as `serde_json` writes a map).
use vstd::prelude::*;
use crate::http::{append_json_str, append_json_str_array, json_str, json_str_array};
use crate::ses::state::opt_text;
use crate::sqs::queue::message_views;
use crate::sqs::types::{
    AttrView, BatchErrorEntry, MessageAttributeValue, MessageView, SendMessageBatchResultEntry, SqsMessage,
};
use crate::table::Table;
use crate::text::{append, append_escaped, views, xml_escaped};

verus! {

/// The opening of an answer to `action`.
pub open spec fn xml_open(action: Seq<char>) -> Seq<char> {
    "<?xml version=\"1.0\"?>\n<"@ + action + "Response xmlns=\"http://queue.amazonaws.com/doc/2012-11-05/\">"@
}

/// The closing of an answer to `action`, with the request id.
pub open spec fn xml_close(action: Seq<char>, request_id: Seq<char>) -> Seq<char> {
    "\n    <ResponseMetadata>\n        <RequestId>"@ + xml_escaped(request_id)
        + "</RequestId>\n    </ResponseMetadata>\n</"@ + action + "Response>"@
}

/// An element `<tag>text</tag>`, the text escaped, after a line break and
/// `indent`.
pub open spec fn xml_line(indent: Seq<char>, tag: Seq<char>, text: Seq<char>) -> Seq<char> {
    "\n"@ + indent + "<"@ + tag + ">"@ + xml_escaped(text) + "</"@ + tag + ">"@
}

/// A list of URL elements named `tag`.
pub open spec fn url_lines(tag: Seq<char>, urls: Seq<Seq<char>>) -> Seq<char>
    decreases urls.len(),
{
    if urls.len() == 0 {
        Seq::empty()
    } else {
        url_lines(tag, urls.drop_last()) + xml_line("        "@, tag, urls.last())
    }
}

/// The answer to `CreateQueue` or `GetQueueUrl`: one queue URL.
pub open spec fn xml_url_answer(action: Seq<char>, queue_url: Seq<char>, request_id: Seq<char>) -> Seq<char> {
    xml_open(action) + "\n    <"@ + action + "Result>"@ + xml_line("        "@, "QueueUrl"@, queue_url) + "\n    </"@
        + action + "Result>"@ + xml_close(action, request_id)
}

/// The answer to a listing of queue URLs.
pub open spec fn xml_urls_answer(action: Seq<char>, tag: Seq<char>, urls: Seq<Seq<char>>, request_id: Seq<char>) -> Seq<
    char,
> {
    xml_open(action) + "\n    <"@ + action + "Result>"@ + url_lines(tag, urls) + "\n    </"@ + action + "Result>"@
        + xml_close(action, request_id)
}

/// The `<Attribute>` elements of named values, at the given depth.
pub open spec fn attribute_lines(indent: Seq<char>, keys: Seq<Seq<char>>, m: Map<Seq<char>, Seq<char>>) -> Seq<char>
    decreases keys.len(),
{
    if keys.len() == 0 {
        Seq::empty()
    } else {
        let k = keys.last();
        attribute_lines(indent, keys.drop_last(), m) + "\n"@ + indent + "<Attribute>"@ + xml_line(
            indent + "    "@,
            "Name"@,
            k,
        ) + xml_line(indent + "    "@, "Value"@, m[k]) + "\n"@ + indent + "</Attribute>"@
    }
}

/// The text of a table of strings.
pub open spec fn table_texts(t: Table<String>) -> Map<Seq<char>, Seq<char>> {
    t@.map_values(|v: String| v@)
}

/// The answer to `GetQueueAttributes`.
pub open spec fn xml_attributes_answer(t: Table<String>, request_id: Seq<char>) -> Seq<char> {
    xml_open("GetQueueAttributes"@) + "\n    <GetQueueAttributesResult>"@ + attribute_lines(
        "        "@,
        t.keys(),
        table_texts(t),
    ) + "\n    </GetQueueAttributesResult>"@ + xml_close("GetQueueAttributes"@, request_id)
}

/// The sequence number element, if there is one.
pub open spec fn seq_line(indent: Seq<char>, seq: Option<Seq<char>>) -> Seq<char> {
    match seq {
        Some(s) => xml_line(indent, "SequenceNumber"@, s),
        None => Seq::empty(),
    }
}

/// The answer to `SendMessage`.
pub open spec fn xml_send_answer(id: Seq<char>, md5: Seq<char>, seq: Option<Seq<char>>, request_id: Seq<char>) -> Seq<
    char,
> {
    xml_open("SendMessage"@) + "\n    <SendMessageResult>"@ + xml_line("        "@, "MD5OfMessageBody"@, md5) + xml_line(
        "        "@,
        "MessageId"@,
        id,
    ) + seq_line("        "@, seq) + "\n    </SendMessageResult>"@ + xml_close("SendMessage"@, request_id)
}

/// The text of `true` or `false`.
pub open spec fn bool_text(b: bool) -> Seq<char> {
    if b {
        "true"@
    } else {
        "false"@
    }
}

/// The elements of the failed entries of a batch.
pub open spec fn error_lines(es: Seq<BatchErrorEntry>) -> Seq<char>
    decreases es.len(),
{
    if es.len() == 0 {
        Seq::empty()
    } else {
        error_lines(es.drop_last()) + error_line(es.last())
    }
}

/// The element of one failed entry of a batch.
pub open spec fn error_line(f: BatchErrorEntry) -> Seq<char> {
    "\n        <BatchResultErrorEntry>"@ + xml_line("            "@, "Id"@, f.id@) + "\n            <SenderFault>"@
        + bool_text(f.sender_fault) + "</SenderFault>"@ + xml_line("            "@, "Code"@, f.code@) + xml_line(
        "            "@,
        "Message"@,
        f.message@,
    ) + "\n        </BatchResultErrorEntry>"@
}

/// The elements of the successful entries of a batch send.
pub open spec fn sent_lines(es: Seq<SendMessageBatchResultEntry>) -> Seq<char>
    decreases es.len(),
{
    if es.len() == 0 {
        Seq::empty()
    } else {
        sent_lines(es.drop_last()) + sent_line(es.last())
    }
}

/// The element of one successful entry of a batch send.
pub open spec fn sent_line(s: SendMessageBatchResultEntry) -> Seq<char> {
    "\n        <SendMessageBatchResultEntry>"@ + xml_line("            "@, "Id"@, s.id@) + xml_line(
        "            "@,
        "MessageId"@,
        s.message_id@,
    ) + xml_line("            "@, "MD5OfMessageBody"@, s.md5_of_message_body@) + seq_line(
        "            "@,
        opt_text(s.sequence_number),
    ) + "\n        </SendMessageBatchResultEntry>"@
}

/// The answer to `SendMessageBatch`.
pub open spec fn xml_send_batch_answer(
    ok: Seq<SendMessageBatchResultEntry>,
    failed: Seq<BatchErrorEntry>,
    request_id: Seq<char>,
) -> Seq<char> {
    xml_open("SendMessageBatch"@) + "\n    <SendMessageBatchResult>"@ + sent_lines(ok) + error_lines(failed)
        + "\n    </SendMessageBatchResult>"@ + xml_close("SendMessageBatch"@, request_id)
}

/// The `<MessageAttribute>` elements of a message.
pub open spec fn message_attribute_lines(keys: Seq<Seq<char>>, m: Map<Seq<char>, AttrView>) -> Seq<char>
    decreases keys.len(),
{
    if keys.len() == 0 {
        Seq::empty()
    } else {
        message_attribute_lines(keys.drop_last(), m) + message_attribute_line(keys.last(), m[keys.last()])
    }
}

/// The `<MessageAttribute>` element of one message attribute.
pub open spec fn message_attribute_line(k: Seq<char>, v: AttrView) -> Seq<char> {
    "\n            <MessageAttribute>"@ + xml_line("                "@, "Name"@, k) + "\n                <Value>"@
        + xml_line("                    "@, "DataType"@, v.data_type) + xml_line(
        "                    "@,
        "StringValue"@,
        match v.string_value {
            Some(s) => s,
            None => Seq::empty(),
        },
    ) + "\n                </Value>\n            </MessageAttribute>"@
}

/// The `<Message>` element of a received message.
pub open spec fn message_xml(m: SqsMessage) -> Seq<char> {
    let v = m@;
    "\n        <Message>"@ + xml_line("            "@, "MessageId"@, v.message_id) + xml_line(
        "            "@,
        "ReceiptHandle"@,
        v.receipt_handle,
    ) + xml_line("            "@, "MD5OfBody"@, v.md5_of_body) + xml_line("            "@, "Body"@, v.body)
        + attribute_lines("            "@, m.attributes.keys(), v.attributes) + message_attribute_lines(
        m.message_attributes.keys(),
        v.message_attributes,
    ) + "\n        </Message>"@
}

/// The `<Message>` elements of received messages.
pub open spec fn messages_xml(ms: Seq<SqsMessage>) -> Seq<char>
    decreases ms.len(),
{
    if ms.len() == 0 {
        Seq::empty()
    } else {
        messages_xml(ms.drop_last()) + message_xml(ms.last())
    }
}

/// The answer to `ReceiveMessage`.
pub open spec fn xml_receive_answer(ms: Seq<SqsMessage>, request_id: Seq<char>) -> Seq<char> {
    xml_open("ReceiveMessage"@) + "\n    <ReceiveMessageResult>"@ + messages_xml(ms) + "\n    </ReceiveMessageResult>"@
        + xml_close("ReceiveMessage"@, request_id)
}

/// The answer to an action that returns nothing.
pub open spec fn xml_empty_answer(action: Seq<char>, request_id: Seq<char>) -> Seq<char> {
    xml_open(xml_escaped(action)) + xml_close(xml_escaped(action), request_id)
}

/// The elements of the successful entries of a batch delete.
pub open spec fn deleted_lines(ids: Seq<Seq<char>>) -> Seq<char>
    decreases ids.len(),
{
    if ids.len() == 0 {
        Seq::empty()
    } else {
        deleted_lines(ids.drop_last()) + "\n        <DeleteMessageBatchResultEntry>"@ + xml_line(
            "            "@,
            "Id"@,
            ids.last(),
        ) + "\n        </DeleteMessageBatchResultEntry>"@
    }
}

/// The answer to `DeleteMessageBatch`.
pub open spec fn xml_delete_batch_answer(ids: Seq<Seq<char>>, failed: Seq<BatchErrorEntry>, request_id: Seq<char>) -> Seq<
    char,
> {
    xml_open("DeleteMessageBatch"@) + "\n    <DeleteMessageBatchResult>"@ + deleted_lines(ids) + error_lines(failed)
        + "\n    </DeleteMessageBatchResult>"@ + xml_close("DeleteMessageBatch"@, request_id)
}

/// Appends the opening of an answer.
fn put_open(x: &mut String, action: &str)
    ensures
        final(x)@ == old(x)@ + xml_open(action@),
{
    append(x, "<?xml version=\"1.0\"?>\n<");
    append(x, action);
    append(x, "Response xmlns=\"http://queue.amazonaws.com/doc/2012-11-05/\">");
    assert(x@ =~= old(x)@ + xml_open(action@));
}

/// Appends the closing of an answer.
fn put_close(x: &mut String, action: &str, request_id: &str)
    ensures
        final(x)@ == old(x)@ + xml_close(action@, request_id@),
{
    append(x, "\n    <ResponseMetadata>\n        <RequestId>");
    append_escaped(x, request_id);
    append(x, "</RequestId>\n    </ResponseMetadata>\n</");
    append(x, action);
    append(x, "Response>");
    assert(x@ =~= old(x)@ + xml_close(action@, request_id@));
}

/// Appends an element on a line of its own.
pub fn append_line(x: &mut String, indent: &str, tag: &str, text: &str)
    ensures
        final(x)@ == old(x)@ + xml_line(indent@, tag@, text@),
{
    append(x, "\n");
    append(x, indent);
    append(x, "<");
    append(x, tag);
    append(x, ">");
    append_escaped(x, text);
    append(x, "</");
    append(x, tag);
    append(x, ">");
    assert(x@ =~= old(x)@ + xml_line(indent@, tag@, text@));
}

/// Appends URL elements.
fn put_urls(x: &mut String, tag: &str, urls: &Vec<String>)
    ensures
        final(x)@ == old(x)@ + url_lines(tag@, views(urls@)),
{
    let ghost us = views(urls@);
    let mut i: usize = 0;
    assert(us.subrange(0, 0) =~= Seq::<Seq<char>>::empty());
    while i < urls.len()
        invariant
            us == views(urls@),
            i <= us.len(),
            x@ == old(x)@ + url_lines(tag@, us.subrange(0, i as int)),
        decreases us.len() - i,
    {
        assert(us.subrange(0, i + 1).drop_last() =~= us.subrange(0, i as int));
        append_line(x, "        ", tag, urls[i].as_str());
        i = i + 1;
        assert(x@ =~= old(x)@ + url_lines(tag@, us.subrange(0, i as int)));
    }
    assert(us.subrange(0, us.len() as int) =~= us);
}

/// The XML answer to `CreateQueue`.
pub fn xml_create_queue_response(queue_url: &str, request_id: &str) -> (r: String)
    ensures
        r@ == xml_url_answer("CreateQueue"@, queue_url@, request_id@),
{
    xml_url_response("CreateQueue", queue_url, request_id)
}

/// The XML answer to `GetQueueUrl`.
pub fn xml_get_queue_url_response(queue_url: &str, request_id: &str) -> (r: String)
    ensures
        r@ == xml_url_answer("GetQueueUrl"@, queue_url@, request_id@),
{
    xml_url_response("GetQueueUrl", queue_url, request_id)
}

/// The XML answer holding one queue URL.
pub fn xml_url_response(action: &str, queue_url: &str, request_id: &str) -> (r: String)
    ensures
        r@ == xml_url_answer(action@, queue_url@, request_id@),
{
    let mut x = String::new();
    put_open(&mut x, action);
    append(&mut x, "\n    <");
    append(&mut x, action);
    append(&mut x, "Result>");
    append_line(&mut x, "        ", "QueueUrl", queue_url);
    append(&mut x, "\n    </");
    append(&mut x, action);
    append(&mut x, "Result>");
    put_close(&mut x, action, request_id);
    assert(x@ =~= xml_url_answer(action@, queue_url@, request_id@));
    x
}

fn urls_answer(action: &str, tag: &str, queue_urls: &Vec<String>, request_id: &str) -> (r: String)
    ensures
        r@ == xml_urls_answer(action@, tag@, views(queue_urls@), request_id@),
{
    let mut x = String::new();
    put_open(&mut x, action);
    append(&mut x, "\n    <");
    append(&mut x, action);
    append(&mut x, "Result>");
    put_urls(&mut x, tag, queue_urls);
    append(&mut x, "\n    </");
    append(&mut x, action);
    append(&mut x, "Result>");
    put_close(&mut x, action, request_id);
    assert(x@ =~= xml_urls_answer(action@, tag@, views(queue_urls@), request_id@));
    x
}

/// The XML answer to `ListQueues`.
pub fn xml_list_queues_response(queue_urls: &Vec<String>, request_id: &str) -> (r: String)
    ensures
        r@ == xml_urls_answer("ListQueues"@, "QueueUrl"@, views(queue_urls@), request_id@),
{
    urls_answer("ListQueues", "QueueUrl", queue_urls, request_id)
}

/// The XML answer to `ListDeadLetterSourceQueues`.
pub fn xml_list_dead_letter_source_queues_response(queue_urls: &Vec<String>, request_id: &str) -> (r: String)
    ensures
        r@ == xml_urls_answer("ListDeadLetterSourceQueues"@, "QueueUrl"@, views(queue_urls@), request_id@),
{
    urls_answer("ListDeadLetterSourceQueues", "QueueUrl", queue_urls, request_id)
}

/// Appends `<Attribute>` elements for the entries of a table, in key order.
fn put_attributes(x: &mut String, indent: &str, t: &Table<String>)
    requires
        t.wf(),
    ensures
        final(x)@ == old(x)@ + attribute_lines(indent@, t.keys(), table_texts(*t)),
{
    let n = t.len();
    proof {
        t.lemma_wf();
    }
    let ghost ks = t.keys();
    let mut inner = String::new();
    append(&mut inner, indent);
    append(&mut inner, "    ");
    let mut i: usize = 0;
    assert(ks.subrange(0, 0) =~= Seq::<Seq<char>>::empty());
    while i < n
        invariant
            t.wf(),
            ks == t.keys(),
            n == ks.len(),
            i <= n,
            inner@ == indent@ + "    "@,
            forall|j: int| 0 <= j < n ==> #[trigger] t@.contains_key(ks[j]) && t@[ks[j]] == t.vals()[j],
            x@ == old(x)@ + attribute_lines(indent@, ks.subrange(0, i as int), table_texts(*t)),
        decreases n - i,
    {
        let (k, v) = t.entry(i);
        proof {
            assert(ks.subrange(0, i + 1).drop_last() =~= ks.subrange(0, i as int));
            assert(t@.contains_key(ks[i as int]));
            assert(table_texts(*t)[ks[i as int]] == v@);
        }
        append(x, "\n");
        append(x, indent);
        append(x, "<Attribute>");
        append_line(x, inner.as_str(), "Name", k.as_str());
        append_line(x, inner.as_str(), "Value", v.as_str());
        append(x, "\n");
        append(x, indent);
        append(x, "</Attribute>");
        i = i + 1;
        assert(x@ =~= old(x)@ + attribute_lines(indent@, ks.subrange(0, i as int), table_texts(*t)));
    }
    assert(ks.subrange(0, n as int) =~= ks);
}

/// The XML answer to `GetQueueAttributes`, attributes in name order.
pub fn xml_get_queue_attributes_response(attributes: &Table<String>, request_id: &str) -> (r: String)
    requires
        attributes.wf(),
    ensures
        r@ == xml_attributes_answer(*attributes, request_id@),
{
    let mut x = String::new();
    put_open(&mut x, "GetQueueAttributes");
    append(&mut x, "\n    <GetQueueAttributesResult>");
    put_attributes(&mut x, "        ", attributes);
    append(&mut x, "\n    </GetQueueAttributesResult>");
    put_close(&mut x, "GetQueueAttributes", request_id);
    assert(x@ =~= xml_attributes_answer(*attributes, request_id@));
    x
}

fn put_seq(x: &mut String, indent: &str, seq: Option<&str>)
    ensures
        final(x)@ == old(x)@ + seq_line(
            indent@,
            match seq {
                Some(s) => Some(s@),
                None => None,
            },
        ),
{
    match seq {
        Some(s) => append_line(x, indent, "SequenceNumber", s),
        None => {
            assert(x@ =~= old(x)@ + Seq::<char>::empty());
        },
    }
}

/// The XML answer to `SendMessage`.
pub fn xml_send_message_response(message_id: &str, md5: &str, seq: Option<&str>, request_id: &str) -> (r: String)
    ensures
        r@ == xml_send_answer(
            message_id@,
            md5@,
            match seq {
                Some(s) => Some(s@),
                None => None,
            },
            request_id@,
        ),
{
    let mut x = String::new();
    put_open(&mut x, "SendMessage");
    append(&mut x, "\n    <SendMessageResult>");
    append_line(&mut x, "        ", "MD5OfMessageBody", md5);
    append_line(&mut x, "        ", "MessageId", message_id);
    put_seq(&mut x, "        ", seq);
    append(&mut x, "\n    </SendMessageResult>");
    put_close(&mut x, "SendMessage", request_id);
    assert(x@ =~= xml_send_answer(
        message_id@,
        md5@,
        match seq {
            Some(s) => Some(s@),
            None => None,
        },
        request_id@,
    ));
    x
}

fn put_error(x: &mut String, f: &BatchErrorEntry)
    ensures
        final(x)@ == old(x)@ + error_line(*f),
{
    append(x, "\n        <BatchResultErrorEntry>");
    append_line(x, "            ", "Id", f.id.as_str());
    append(x, "\n            <SenderFault>");
    if f.sender_fault {
        append(x, "true");
    } else {
        append(x, "false");
    }
    append(x, "</SenderFault>");
    append_line(x, "            ", "Code", f.code.as_str());
    append_line(x, "            ", "Message", f.message.as_str());
    append(x, "\n        </BatchResultErrorEntry>");
    assert(x@ =~= old(x)@ + error_line(*f));
}

fn put_errors(x: &mut String, failed: &Vec<BatchErrorEntry>)
    ensures
        final(x)@ == old(x)@ + error_lines(failed@),
{
    let mut i: usize = 0;
    assert(failed@.subrange(0, 0) =~= Seq::<BatchErrorEntry>::empty());
    while i < failed.len()
        invariant
            i <= failed@.len(),
            x@ == old(x)@ + error_lines(failed@.subrange(0, i as int)),
        decreases failed@.len() - i,
    {
        assert(failed@.subrange(0, i + 1).drop_last() =~= failed@.subrange(0, i as int));
        put_error(x, &failed[i]);
        i = i + 1;
        assert(x@ =~= old(x)@ + error_lines(failed@.subrange(0, i as int)));
    }
    assert(failed@.subrange(0, failed@.len() as int) =~= failed@);
}

fn put_sent(x: &mut String, s: &SendMessageBatchResultEntry)
    ensures
        final(x)@ == old(x)@ + sent_line(*s),
{
    append(x, "\n        <SendMessageBatchResultEntry>");
    append_line(x, "            ", "Id", s.id.as_str());
    append_line(x, "            ", "MessageId", s.message_id.as_str());
    append_line(x, "            ", "MD5OfMessageBody", s.md5_of_message_body.as_str());
    match &s.sequence_number {
        Some(q) => put_seq(x, "            ", Some(q.as_str())),
        None => put_seq(x, "            ", None),
    }
    append(x, "\n        </SendMessageBatchResultEntry>");
    assert(x@ =~= old(x)@ + sent_line(*s));
}

/// The XML answer to `SendMessageBatch`.
pub fn xml_send_message_batch_response(
    successful: &Vec<SendMessageBatchResultEntry>,
    failed: &Vec<BatchErrorEntry>,
    request_id: &str,
) -> (r: String)
    ensures
        r@ == xml_send_batch_answer(successful@, failed@, request_id@),
{
    let mut x = String::new();
    put_open(&mut x, "SendMessageBatch");
    append(&mut x, "\n    <SendMessageBatchResult>");
    let ghost head = x@;
    let mut i: usize = 0;
    assert(successful@.subrange(0, 0) =~= Seq::<SendMessageBatchResultEntry>::empty());
    while i < successful.len()
        invariant
            i <= successful@.len(),
            x@ == head + sent_lines(successful@.subrange(0, i as int)),
        decreases successful@.len() - i,
    {
        assert(successful@.subrange(0, i + 1).drop_last() =~= successful@.subrange(0, i as int));
        put_sent(&mut x, &successful[i]);
        i = i + 1;
        assert(x@ =~= head + sent_lines(successful@.subrange(0, i as int)));
    }
    assert(successful@.subrange(0, successful@.len() as int) =~= successful@);
    put_errors(&mut x, failed);
    append(&mut x, "\n    </SendMessageBatchResult>");
    put_close(&mut x, "SendMessageBatch", request_id);
    assert(x@ =~= xml_send_batch_answer(successful@, failed@, request_id@));
    x
}

fn put_message_attribute(x: &mut String, k: &str, v: &MessageAttributeValue)
    ensures
        final(x)@ == old(x)@ + message_attribute_line(k@, v@),
{
    append(x, "\n            <MessageAttribute>");
    append_line(x, "                ", "Name", k);
    append(x, "\n                <Value>");
    append_line(x, "                    ", "DataType", v.data_type.as_str());
    match &v.string_value {
        Some(s) => append_line(x, "                    ", "StringValue", s.as_str()),
        None => {
            proof {
                reveal_strlit("");
            }
            append_line(x, "                    ", "StringValue", "");
            assert(""@ =~= Seq::<char>::empty());
        },
    }
    append(x, "\n                </Value>\n            </MessageAttribute>");
    assert(x@ =~= old(x)@ + message_attribute_line(k@, v@));
}

fn put_message_attributes(x: &mut String, t: &Table<MessageAttributeValue>)
    requires
        t.wf(),
    ensures
        final(x)@ == old(x)@ + message_attribute_lines(t.keys(), t@.map_values(|a: MessageAttributeValue| a@)),
{
    let n = t.len();
    proof {
        t.lemma_wf();
    }
    let ghost ks = t.keys();
    let ghost mv = t@.map_values(|a: MessageAttributeValue| a@);
    let mut i: usize = 0;
    assert(ks.subrange(0, 0) =~= Seq::<Seq<char>>::empty());
    while i < n
        invariant
            t.wf(),
            ks == t.keys(),
            mv == t@.map_values(|a: MessageAttributeValue| a@),
            n == ks.len(),
            i <= n,
            forall|j: int| 0 <= j < n ==> #[trigger] t@.contains_key(ks[j]) && t@[ks[j]] == t.vals()[j],
            x@ == old(x)@ + message_attribute_lines(ks.subrange(0, i as int), mv),
        decreases n - i,
    {
        let (k, v) = t.entry(i);
        proof {
            assert(ks.subrange(0, i + 1).drop_last() =~= ks.subrange(0, i as int));
            assert(t@.contains_key(ks[i as int]));
            assert(mv[ks[i as int]] == v@);
        }
        put_message_attribute(x, k.as_str(), v);
        i = i + 1;
        assert(x@ =~= old(x)@ + message_attribute_lines(ks.subrange(0, i as int), mv));
    }
    assert(ks.subrange(0, n as int) =~= ks);
}

fn put_message(x: &mut String, m: &SqsMessage)
    requires
        m.wf(),
    ensures
        final(x)@ == old(x)@ + message_xml(*m),
{
    append(x, "\n        <Message>");
    append_line(x, "            ", "MessageId", m.message_id.as_str());
    append_line(x, "            ", "ReceiptHandle", m.receipt_handle.as_str());
    append_line(x, "            ", "MD5OfBody", m.md5_of_body.as_str());
    append_line(x, "            ", "Body", m.body.as_str());
    put_attributes(x, "            ", &m.attributes);
    put_message_attributes(x, &m.message_attributes);
    append(x, "\n        </Message>");
    assert(x@ =~= old(x)@ + message_xml(*m));
}

/// The XML answer to `ReceiveMessage`.
#[verifier::spinoff_prover]
#[verifier::rlimit(40)]
pub fn xml_receive_message_response(messages: &Vec<SqsMessage>, request_id: &str) -> (r: String)
    requires
        forall|i: int| 0 <= i < messages@.len() ==> (#[trigger] messages@[i]).wf(),
    ensures
        r@ == xml_receive_answer(messages@, request_id@),
{
    let mut x = String::new();
    put_open(&mut x, "ReceiveMessage");
    append(&mut x, "\n    <ReceiveMessageResult>");
    let ghost head = x@;
    let mut i: usize = 0;
    assert(messages@.subrange(0, 0) =~= Seq::<SqsMessage>::empty());
    while i < messages.len()
        invariant
            i <= messages@.len(),
            forall|j: int| 0 <= j < messages@.len() ==> (#[trigger] messages@[j]).wf(),
            x@ == head + messages_xml(messages@.subrange(0, i as int)),
        decreases messages@.len() - i,
    {
        assert(messages@.subrange(0, i + 1).drop_last() =~= messages@.subrange(0, i as int));
        assert(messages@[i as int].wf());
        put_message(&mut x, &messages[i]);
        i = i + 1;
        assert(x@ =~= head + messages_xml(messages@.subrange(0, i as int)));
    }
    assert(messages@.subrange(0, messages@.len() as int) =~= messages@);
    append(&mut x, "\n    </ReceiveMessageResult>");
    put_close(&mut x, "ReceiveMessage", request_id);
    assert(x@ =~= xml_receive_answer(messages@, request_id@));
    x
}

/// The XML answer to an action that returns nothing.
pub fn xml_empty_response(action: &str, request_id: &str) -> (r: String)
    ensures
        r@ == xml_empty_answer(action@, request_id@),
{
    let a = crate::text::xml_escape(action);
    let mut x = String::new();
    put_open(&mut x, a.as_str());
    put_close(&mut x, a.as_str(), request_id);
    assert(x@ =~= xml_empty_answer(action@, request_id@));
    x
}

/// The XML answer to `DeleteMessageBatch`.
pub fn xml_delete_message_batch_response(successful: &Vec<String>, failed: &Vec<BatchErrorEntry>, request_id: &str) -> (r:
    String)
    ensures
        r@ == xml_delete_batch_answer(views(successful@), failed@, request_id@),
{
    let ghost ids = views(successful@);
    let mut x = String::new();
    put_open(&mut x, "DeleteMessageBatch");
    append(&mut x, "\n    <DeleteMessageBatchResult>");
    let ghost head = x@;
    let mut i: usize = 0;
    assert(ids.subrange(0, 0) =~= Seq::<Seq<char>>::empty());
    while i < successful.len()
        invariant
            ids == views(successful@),
            i <= ids.len(),
            x@ == head + deleted_lines(ids.subrange(0, i as int)),
        decreases ids.len() - i,
    {
        assert(ids.subrange(0, i + 1).drop_last() =~= ids.subrange(0, i as int));
        append(&mut x, "\n        <DeleteMessageBatchResultEntry>");
        append_line(&mut x, "            ", "Id", successful[i].as_str());
        append(&mut x, "\n        </DeleteMessageBatchResultEntry>");
        i = i + 1;
        assert(x@ =~= head + deleted_lines(ids.subrange(0, i as int)));
    }
    assert(ids.subrange(0, ids.len() as int) =~= ids);
    put_errors(&mut x, failed);
    append(&mut x, "\n    </DeleteMessageBatchResult>");
    put_close(&mut x, "DeleteMessageBatch", request_id);
    assert(x@ =~= xml_delete_batch_answer(ids, failed@, request_id@));
    x
}


/// The parts joined by `,`.
pub open spec fn comma_join(parts: Seq<Seq<char>>) -> Seq<char>
    decreases parts.len(),
{
    if parts.len() == 0 {
        Seq::empty()
    } else if parts.len() == 1 {
        parts[0]
    } else {
        comma_join(parts.drop_last()) + ","@ + parts.last()
    }
}

/// The members `"key":"value"` of a JSON object of strings, in the order of
/// `keys`.
pub open spec fn json_members(keys: Seq<Seq<char>>, m: Map<Seq<char>, Seq<char>>) -> Seq<Seq<char>> {
    keys.map_values(|k: Seq<char>| json_str(k) + ":"@ + json_str(m[k]))
}

/// A JSON object of the strings of a table, keys in ascending order.
pub open spec fn json_object(t: Table<String>) -> Seq<char> {
    "{"@ + comma_join(json_members(t.keys(), table_texts(t))) + "}"@
}

/// The JSON answer holding one queue URL.
pub open spec fn json_url_answer(queue_url: Seq<char>) -> Seq<char> {
    "{\"QueueUrl\":"@ + json_str(queue_url) + "}"@
}

/// The JSON answer to `SendMessage`.
pub open spec fn json_send_answer(id: Seq<char>, md5: Seq<char>, seq: Option<Seq<char>>) -> Seq<char> {
    "{\"MD5OfMessageBody\":"@ + json_str(md5) + ",\"MessageId\":"@ + json_str(id) + match seq {
        Some(s) => ",\"SequenceNumber\":"@ + json_str(s),
        None => Seq::empty(),
    } + "}"@
}

/// One failed entry of a batch, in JSON.
pub open spec fn json_error_entry(f: BatchErrorEntry) -> Seq<char> {
    "{\"Code\":"@ + json_str(f.code@) + ",\"Id\":"@ + json_str(f.id@) + ",\"Message\":"@ + json_str(f.message@)
        + ",\"SenderFault\":"@ + bool_text(f.sender_fault) + "}"@
}

/// One successful entry of a batch send, in JSON.
pub open spec fn json_sent_entry(s: SendMessageBatchResultEntry) -> Seq<char> {
    "{\"Id\":"@ + json_str(s.id@) + ",\"MD5OfMessageBody\":"@ + json_str(s.md5_of_message_body@) + ",\"MessageId\":"@
        + json_str(s.message_id@) + match s.sequence_number {
        Some(q) => ",\"SequenceNumber\":"@ + json_str(q@),
        None => Seq::empty(),
    } + "}"@
}

/// The JSON answer to `SendMessageBatch`.
pub open spec fn json_send_batch_answer(ok: Seq<SendMessageBatchResultEntry>, failed: Seq<BatchErrorEntry>) -> Seq<char> {
    "{\"Failed\":["@ + comma_join(failed.map_values(|f: BatchErrorEntry| json_error_entry(f))) + "],\"Successful\":["@
        + comma_join(ok.map_values(|s: SendMessageBatchResultEntry| json_sent_entry(s))) + "]}"@
}

/// The JSON answer to `DeleteMessageBatch`.
pub open spec fn json_delete_batch_answer(ids: Seq<Seq<char>>, failed: Seq<BatchErrorEntry>) -> Seq<char> {
    "{\"Failed\":["@ + comma_join(failed.map_values(|f: BatchErrorEntry| json_error_entry(f))) + "],\"Successful\":["@
        + comma_join(ids.map_values(|i: Seq<char>| "{\"Id\":"@ + json_str(i) + "}"@)) + "]}"@
}

/// One message attribute in JSON; a missing string value is `null`.
pub open spec fn json_attr(k: Seq<char>, v: AttrView) -> Seq<char> {
    json_str(k) + ":{\"DataType\":"@ + json_str(v.data_type) + ",\"StringValue\":"@ + match v.string_value {
        Some(s) => json_str(s),
        None => "null"@,
    } + "}"@
}

/// A received message in JSON.
pub open spec fn json_message(m: SqsMessage) -> Seq<char> {
    let v = m@;
    "{\"Attributes\":"@ + json_object(m.attributes) + ",\"Body\":"@ + json_str(v.body) + ",\"MD5OfBody\":"@ + json_str(
        v.md5_of_body,
    ) + ",\"MessageAttributes\":{"@ + comma_join(
        m.message_attributes.keys().map_values(|k: Seq<char>| json_attr(k, v.message_attributes[k])),
    ) + "},\"MessageId\":"@ + json_str(v.message_id) + ",\"ReceiptHandle\":"@ + json_str(v.receipt_handle) + "}"@
}

/// The JSON answer to `ReceiveMessage`.
pub open spec fn json_receive_answer(ms: Seq<SqsMessage>) -> Seq<char> {
    "{\"Messages\":["@ + comma_join(ms.map_values(|m: SqsMessage| json_message(m))) + "]}"@
}

/// One step of a joined list.
pub proof fn lemma_join_step(parts: Seq<Seq<char>>, i: int)
    requires
        0 <= i < parts.len(),
    ensures
        comma_join(parts.subrange(0, i + 1)) == if i == 0 {
            parts[0]
        } else {
            comma_join(parts.subrange(0, i)) + ","@ + parts[i]
        },
{
    assert(parts.subrange(0, i + 1).drop_last() =~= parts.subrange(0, i));
}

/// The JSON answer to `CreateQueue`.
pub fn json_create_queue_response(queue_url: &str) -> (r: String)
    ensures
        r@ == json_url_answer(queue_url@),
{
    let mut x = String::new();
    append(&mut x, "{\"QueueUrl\":");
    append_json_str(&mut x, queue_url);
    append(&mut x, "}");
    assert(x@ =~= json_url_answer(queue_url@));
    x
}

/// The JSON answer to `GetQueueUrl`.
pub fn json_get_queue_url_response(queue_url: &str) -> (r: String)
    ensures
        r@ == json_url_answer(queue_url@),
{
    json_create_queue_response(queue_url)
}

/// The JSON answer to `ListQueues`.
pub fn json_list_queues_response(queue_urls: &Vec<String>) -> (r: String)
    ensures
        r@ == "{\"QueueUrls\":"@ + json_str_array(views(queue_urls@)) + "}"@,
{
    let mut x = String::new();
    append(&mut x, "{\"QueueUrls\":");
    append_json_str_array(&mut x, queue_urls);
    append(&mut x, "}");
    assert(x@ =~= "{\"QueueUrls\":"@ + json_str_array(views(queue_urls@)) + "}"@);
    x
}

/// The JSON answer to `ListDeadLetterSourceQueues`.
pub fn json_list_dead_letter_source_queues_response(queue_urls: &Vec<String>) -> (r: String)
    ensures
        r@ == "{\"queueUrls\":"@ + json_str_array(views(queue_urls@)) + "}"@,
{
    let mut x = String::new();
    append(&mut x, "{\"queueUrls\":");
    append_json_str_array(&mut x, queue_urls);
    append(&mut x, "}");
    assert(x@ =~= "{\"queueUrls\":"@ + json_str_array(views(queue_urls@)) + "}"@);
    x
}

/// Appends a JSON object of the strings of a table.
pub fn put_object(x: &mut String, t: &Table<String>)
    requires
        t.wf(),
    ensures
        final(x)@ == old(x)@ + json_object(*t),
{
    let n = t.len();
    proof {
        t.lemma_wf();
    }
    let ghost ks = t.keys();
    let ghost parts = json_members(ks, table_texts(*t));
    append(x, "{");
    let ghost head = x@;
    let mut i: usize = 0;
    assert(parts.subrange(0, 0) =~= Seq::<Seq<char>>::empty());
    while i < n
        invariant
            t.wf(),
            ks == t.keys(),
            parts == json_members(ks, table_texts(*t)),
            n == ks.len(),
            i <= n,
            forall|j: int| 0 <= j < n ==> #[trigger] t@.contains_key(ks[j]) && t@[ks[j]] == t.vals()[j],
            x@ == head + comma_join(parts.subrange(0, i as int)),
        decreases n - i,
    {
        let (k, v) = t.entry(i);
        proof {
            lemma_join_step(parts, i as int);
            assert(t@.contains_key(ks[i as int]));
            assert(parts[i as int] == json_str(k@) + ":"@ + json_str(v@));
        }
        if i > 0 {
            append(x, ",");
        }
        append_json_str(x, k.as_str());
        append(x, ":");
        append_json_str(x, v.as_str());
        i = i + 1;
        assert(x@ =~= head + comma_join(parts.subrange(0, i as int)));
    }
    assert(parts.subrange(0, n as int) =~= parts);
    append(x, "}");
    assert(x@ =~= old(x)@ + json_object(*t));
}

/// The JSON answer to `GetQueueAttributes`.
pub fn json_get_queue_attributes_response(attributes: &Table<String>) -> (r: String)
    requires
        attributes.wf(),
    ensures
        r@ == "{\"Attributes\":"@ + json_object(*attributes) + "}"@,
{
    let mut x = String::new();
    append(&mut x, "{\"Attributes\":");
    put_object(&mut x, attributes);
    append(&mut x, "}");
    assert(x@ =~= "{\"Attributes\":"@ + json_object(*attributes) + "}"@);
    x
}

/// The JSON answer to `SendMessage`.
pub fn json_send_message_response(message_id: &str, md5: &str, seq: Option<&str>) -> (r: String)
    ensures
        r@ == json_send_answer(
            message_id@,
            md5@,
            match seq {
                Some(s) => Some(s@),
                None => None,
            },
        ),
{
    let mut x = String::new();
    append(&mut x, "{\"MD5OfMessageBody\":");
    append_json_str(&mut x, md5);
    append(&mut x, ",\"MessageId\":");
    append_json_str(&mut x, message_id);
    match seq {
        Some(q) => {
            append(&mut x, ",\"SequenceNumber\":");
            append_json_str(&mut x, q);
        },
        None => {},
    }
    append(&mut x, "}");
    assert(x@ =~= json_send_answer(
        message_id@,
        md5@,
        match seq {
            Some(s) => Some(s@),
            None => None,
        },
    ));
    x
}

fn put_error_json(x: &mut String, f: &BatchErrorEntry)
    ensures
        final(x)@ == old(x)@ + json_error_entry(*f),
{
    append(x, "{\"Code\":");
    append_json_str(x, f.code.as_str());
    append(x, ",\"Id\":");
    append_json_str(x, f.id.as_str());
    append(x, ",\"Message\":");
    append_json_str(x, f.message.as_str());
    append(x, ",\"SenderFault\":");
    if f.sender_fault {
        append(x, "true");
    } else {
        append(x, "false");
    }
    append(x, "}");
    assert(x@ =~= old(x)@ + json_error_entry(*f));
}

fn put_errors_json(x: &mut String, failed: &Vec<BatchErrorEntry>)
    ensures
        final(x)@ == old(x)@ + comma_join(failed@.map_values(|f: BatchErrorEntry| json_error_entry(f))),
{
    let ghost parts = failed@.map_values(|f: BatchErrorEntry| json_error_entry(f));
    let mut i: usize = 0;
    assert(parts.subrange(0, 0) =~= Seq::<Seq<char>>::empty());
    while i < failed.len()
        invariant
            parts == failed@.map_values(|f: BatchErrorEntry| json_error_entry(f)),
            i <= failed@.len(),
            x@ == old(x)@ + comma_join(parts.subrange(0, i as int)),
        decreases failed@.len() - i,
    {
        proof {
            lemma_join_step(parts, i as int);
        }
        if i > 0 {
            append(x, ",");
        }
        put_error_json(x, &failed[i]);
        i = i + 1;
        assert(x@ =~= old(x)@ + comma_join(parts.subrange(0, i as int)));
    }
    assert(parts.subrange(0, failed@.len() as int) =~= parts);
}

fn put_sent_json(x: &mut String, s: &SendMessageBatchResultEntry)
    ensures
        final(x)@ == old(x)@ + json_sent_entry(*s),
{
    append(x, "{\"Id\":");
    append_json_str(x, s.id.as_str());
    append(x, ",\"MD5OfMessageBody\":");
    append_json_str(x, s.md5_of_message_body.as_str());
    append(x, ",\"MessageId\":");
    append_json_str(x, s.message_id.as_str());
    match &s.sequence_number {
        Some(q) => {
            append(x, ",\"SequenceNumber\":");
            append_json_str(x, q.as_str());
        },
        None => {},
    }
    append(x, "}");
    assert(x@ =~= old(x)@ + json_sent_entry(*s));
}

/// The JSON answer to `SendMessageBatch`.
pub fn json_send_message_batch_response(successful: &Vec<SendMessageBatchResultEntry>, failed: &Vec<BatchErrorEntry>) -> (r:
    String)
    ensures
        r@ == json_send_batch_answer(successful@, failed@),
{
    let ghost parts = successful@.map_values(|s: SendMessageBatchResultEntry| json_sent_entry(s));
    let mut x = String::new();
    append(&mut x, "{\"Failed\":[");
    put_errors_json(&mut x, failed);
    append(&mut x, "],\"Successful\":[");
    let ghost head = x@;
    let mut i: usize = 0;
    assert(parts.subrange(0, 0) =~= Seq::<Seq<char>>::empty());
    while i < successful.len()
        invariant
            parts == successful@.map_values(|s: SendMessageBatchResultEntry| json_sent_entry(s)),
            i <= successful@.len(),
            x@ == head + comma_join(parts.subrange(0, i as int)),
        decreases successful@.len() - i,
    {
        proof {
            lemma_join_step(parts, i as int);
        }
        if i > 0 {
            append(&mut x, ",");
        }
        put_sent_json(&mut x, &successful[i]);
        i = i + 1;
        assert(x@ =~= head + comma_join(parts.subrange(0, i as int)));
    }
    assert(parts.subrange(0, successful@.len() as int) =~= parts);
    append(&mut x, "]}");
    assert(x@ =~= json_send_batch_answer(successful@, failed@));
    x
}

/// The JSON answer to `DeleteMessageBatch`.
pub fn json_delete_message_batch_response(successful: &Vec<String>, failed: &Vec<BatchErrorEntry>) -> (r: String)
    ensures
        r@ == json_delete_batch_answer(views(successful@), failed@),
{
    let ghost parts = views(successful@).map_values(|i: Seq<char>| "{\"Id\":"@ + json_str(i) + "}"@);
    let mut x = String::new();
    append(&mut x, "{\"Failed\":[");
    put_errors_json(&mut x, failed);
    append(&mut x, "],\"Successful\":[");
    let ghost head = x@;
    let mut i: usize = 0;
    assert(parts.subrange(0, 0) =~= Seq::<Seq<char>>::empty());
    while i < successful.len()
        invariant
            parts == views(successful@).map_values(|i: Seq<char>| "{\"Id\":"@ + json_str(i) + "}"@),
            i <= successful@.len(),
            x@ == head + comma_join(parts.subrange(0, i as int)),
        decreases successful@.len() - i,
    {
        proof {
            lemma_join_step(parts, i as int);
        }
        if i > 0 {
            append(&mut x, ",");
        }
        append(&mut x, "{\"Id\":");
        append_json_str(&mut x, successful[i].as_str());
        append(&mut x, "}");
        i = i + 1;
        assert(x@ =~= head + comma_join(parts.subrange(0, i as int)));
    }
    assert(parts.subrange(0, successful@.len() as int) =~= parts);
    append(&mut x, "]}");
    assert(x@ =~= json_delete_batch_answer(views(successful@), failed@));
    x
}

fn put_attrs_json(x: &mut String, t: &Table<MessageAttributeValue>)
    requires
        t.wf(),
    ensures
        final(x)@ == old(x)@ + comma_join(
            t.keys().map_values(|k: Seq<char>| json_attr(k, t@.map_values(|a: MessageAttributeValue| a@)[k])),
        ),
{
    let n = t.len();
    proof {
        t.lemma_wf();
    }
    let ghost ks = t.keys();
    let ghost mv = t@.map_values(|a: MessageAttributeValue| a@);
    let ghost parts = ks.map_values(|k: Seq<char>| json_attr(k, mv[k]));
    let mut i: usize = 0;
    assert(parts.subrange(0, 0) =~= Seq::<Seq<char>>::empty());
    while i < n
        invariant
            t.wf(),
            ks == t.keys(),
            mv == t@.map_values(|a: MessageAttributeValue| a@),
            parts == ks.map_values(|k: Seq<char>| json_attr(k, mv[k])),
            n == ks.len(),
            i <= n,
            forall|j: int| 0 <= j < n ==> #[trigger] t@.contains_key(ks[j]) && t@[ks[j]] == t.vals()[j],
            x@ == old(x)@ + comma_join(parts.subrange(0, i as int)),
        decreases n - i,
    {
        let (k, v) = t.entry(i);
        proof {
            lemma_join_step(parts, i as int);
            assert(t@.contains_key(ks[i as int]));
            assert(mv[ks[i as int]] == v@);
        }
        if i > 0 {
            append(x, ",");
        }
        append_json_str(x, k.as_str());
        append(x, ":{\"DataType\":");
        append_json_str(x, v.data_type.as_str());
        append(x, ",\"StringValue\":");
        match &v.string_value {
            Some(s) => append_json_str(x, s.as_str()),
            None => append(x, "null"),
        }
        append(x, "}");
        i = i + 1;
        assert(x@ =~= old(x)@ + comma_join(parts.subrange(0, i as int)));
    }
    assert(parts.subrange(0, n as int) =~= parts);
}

fn put_message_json(x: &mut String, m: &SqsMessage)
    requires
        m.wf(),
    ensures
        final(x)@ == old(x)@ + json_message(*m),
{
    append(x, "{\"Attributes\":");
    put_object(x, &m.attributes);
    append(x, ",\"Body\":");
    append_json_str(x, m.body.as_str());
    append(x, ",\"MD5OfBody\":");
    append_json_str(x, m.md5_of_body.as_str());
    append(x, ",\"MessageAttributes\":{");
    put_attrs_json(x, &m.message_attributes);
    append(x, "},\"MessageId\":");
    append_json_str(x, m.message_id.as_str());
    append(x, ",\"ReceiptHandle\":");
    append_json_str(x, m.receipt_handle.as_str());
    append(x, "}");
    assert(x@ =~= old(x)@ + json_message(*m));
}

/// The JSON answer to `ReceiveMessage`.
pub fn json_receive_message_response(messages: &Vec<SqsMessage>) -> (r: String)
    requires
        forall|i: int| 0 <= i < messages@.len() ==> (#[trigger] messages@[i]).wf(),
    ensures
        r@ == json_receive_answer(messages@),
{
    let ghost parts = messages@.map_values(|m: SqsMessage| json_message(m));
    let mut x = String::new();
    append(&mut x, "{\"Messages\":[");
    let ghost head = x@;
    let mut i: usize = 0;
    assert(parts.subrange(0, 0) =~= Seq::<Seq<char>>::empty());
    while i < messages.len()
        invariant
            parts == messages@.map_values(|m: SqsMessage| json_message(m)),
            forall|j: int| 0 <= j < messages@.len() ==> (#[trigger] messages@[j]).wf(),
            i <= messages@.len(),
            x@ == head + comma_join(parts.subrange(0, i as int)),
        decreases messages@.len() - i,
    {
        proof {
            lemma_join_step(parts, i as int);
        }
        if i > 0 {
            append(&mut x, ",");
        }
        assert(messages@[i as int].wf());
        put_message_json(&mut x, &messages[i]);
        i = i + 1;
        assert(x@ =~= head + comma_join(parts.subrange(0, i as int)));
    }
    assert(parts.subrange(0, messages@.len() as int) =~= parts);
    append(&mut x, "]}");
    assert(x@ =~= json_receive_answer(messages@));
    x
}

} // verus!
