//! The queue service: queues by name, their settings and their messages.
//! Times handed in are milliseconds since the Unix epoch.
use vstd::prelude::*;
use crate::runtime::{hex_encode, hex_lower, md5_digest, md5_of, new_uuid, now_millis, now_seconds, utf8_bytes};
use crate::sqs::queue::{QueueState, QueueView, SettingsView, SqsError, SqsErrorKind};
use crate::ses::state::{copy_opt, opt_text};
use crate::sqs::queue::{copy_attr_table, expired_messages, message_views};
use crate::sqs::types::{
    AttrView, BatchErrorEntry, ChangeMessageVisibilityBatchEntry, DeleteMessageBatchEntry, MessageAttributeValue,
    MessageView, QueueAttributes, SendMessageBatchEntry, SendMessageBatchResultEntry, SqsMessage,
};
use crate::table::{lemma_map_values_insert, lemma_map_values_remove, Table};
use crate::text::{
    append, chars_to_string, copy_str, decimal, ends_with, eq_ignore_ascii_case, eq_ignore_case, i64_to_string,
    is_prefix, is_suffix, last_index_of, parse_u32, parse_u32_spec, rfind_char, signed_decimal, starts_with, str_eq,
    to_chars, trim_end_char, trim_end_matches_char, u64_to_string, parse_u64, parse_u64_spec, split_char, split_on,
    lemma_split_on_nonempty, views,
};
use vstd::string::StringSliceAdditionalSpecFns;

verus! {

/// The text of a table of strings.
pub open spec fn texts(t: Table<String>) -> Map<Seq<char>, Seq<char>> {
    t@.map_values(|v: String| v@)
}

/// The name a queue is addressed by: a URL's last path segment, or the name
/// itself.
pub open spec fn resolved_name(id: Seq<char>) -> Seq<char> {
    let c = trim_end_char(id, '/');
    match last_index_of(c, '/') {
        Some(p) => c.subrange(p + 1, c.len() as int),
        None => c,
    }
}

/// A number of seconds read from a setting: the value, `fallback` when it is not
/// a number, or `current` when the setting is absent.
pub open spec fn number_setting(a: Map<Seq<char>, Seq<char>>, key: Seq<char>, fallback: u32, current: u32) -> u32 {
    if a.contains_key(key) {
        match parse_u32_spec(a[key]) {
            Some(n) => n,
            None => fallback,
        }
    } else {
        current
    }
}

/// A switch read from a setting: whether it says `true` in any case, or
/// `current` when the setting is absent.
pub open spec fn flag_setting(a: Map<Seq<char>, Seq<char>>, key: Seq<char>, current: bool) -> bool {
    if a.contains_key(key) {
        eq_ignore_case(a[key], "true"@)
    } else {
        current
    }
}

/// Settings `s` with the given attributes applied; `FifoQueue` counts only when
/// a queue is created.
pub open spec fn configure(s: SettingsView, a: Map<Seq<char>, Seq<char>>, at_creation: bool) -> SettingsView {
    SettingsView {
        visibility_timeout: number_setting(a, "VisibilityTimeout"@, 30, s.visibility_timeout),
        delay_seconds: number_setting(a, "DelaySeconds"@, 0, s.delay_seconds),
        receive_wait_time_seconds: number_setting(a, "ReceiveMessageWaitTimeSeconds"@, 0, s.receive_wait_time_seconds),
        max_message_size: number_setting(a, "MaximumMessageSize"@, 262144, s.max_message_size),
        message_retention_period: number_setting(a, "MessageRetentionPeriod"@, 345600, s.message_retention_period),
        is_fifo: if at_creation { flag_setting(a, "FifoQueue"@, s.is_fifo) } else { s.is_fifo },
        content_based_deduplication: flag_setting(a, "ContentBasedDeduplication"@, s.content_based_deduplication),
        redrive_policy: if a.contains_key("RedrivePolicy"@) { Some(a["RedrivePolicy"@]) } else { s.redrive_policy },
        ..s
    }
}

/// The settings of a queue created at `now` (seconds) under `name`: the
/// defaults, FIFO when the name ends in `.fifo`, then the attributes given.
pub open spec fn created_settings(name: Seq<char>, a: Map<Seq<char>, Seq<char>>, now: i64) -> SettingsView {
    configure(
        SettingsView { is_fifo: is_suffix(".fifo"@, name), ..QueueAttributes::defaults(now) },
        a,
        true,
    )
}

/// Whether an attribute was asked for: no names, `All`, or the name itself.
pub open spec fn wants(names: Seq<Seq<char>>, key: Seq<char>) -> bool {
    names.len() == 0 || names.contains("All"@) || names.contains(key)
}

/// `m` with `key` set to `v` when `cond` holds.
pub open spec fn put_when(
    m: Map<Seq<char>, Seq<char>>,
    cond: bool,
    key: Seq<char>,
    v: Seq<char>,
) -> Map<Seq<char>, Seq<char>> {
    if cond {
        m.insert(key, v)
    } else {
        m
    }
}

/// The attributes of queue `q` that `names` ask for, as text.
pub open spec fn attribute_map(q: QueueView, names: Seq<Seq<char>>) -> Map<Seq<char>, Seq<char>> {
    let s = q.attributes;
    let m = Map::empty();
    let m = put_when(m, wants(names, "QueueArn"@), "QueueArn"@, q.arn);
    let m = put_when(
        m,
        wants(names, "ApproximateNumberOfMessages"@),
        "ApproximateNumberOfMessages"@,
        decimal(q.messages.len()),
    );
    let m = put_when(
        m,
        wants(names, "ApproximateNumberOfMessagesNotVisible"@),
        "ApproximateNumberOfMessagesNotVisible"@,
        decimal(q.in_flight.len()),
    );
    let m = put_when(
        m,
        wants(names, "ApproximateNumberOfMessagesDelayed"@),
        "ApproximateNumberOfMessagesDelayed"@,
        "0"@,
    );
    let m = put_when(
        m,
        wants(names, "VisibilityTimeout"@),
        "VisibilityTimeout"@,
        decimal(s.visibility_timeout as nat),
    );
    let m = put_when(m, wants(names, "DelaySeconds"@), "DelaySeconds"@, decimal(s.delay_seconds as nat));
    let m = put_when(
        m,
        wants(names, "ReceiveMessageWaitTimeSeconds"@),
        "ReceiveMessageWaitTimeSeconds"@,
        decimal(s.receive_wait_time_seconds as nat),
    );
    let m = put_when(
        m,
        wants(names, "MaximumMessageSize"@),
        "MaximumMessageSize"@,
        decimal(s.max_message_size as nat),
    );
    let m = put_when(
        m,
        wants(names, "MessageRetentionPeriod"@),
        "MessageRetentionPeriod"@,
        decimal(s.message_retention_period as nat),
    );
    let m = put_when(
        m,
        wants(names, "CreatedTimestamp"@),
        "CreatedTimestamp"@,
        signed_decimal(s.created_timestamp as int),
    );
    let m = put_when(
        m,
        wants(names, "LastModifiedTimestamp"@),
        "LastModifiedTimestamp"@,
        signed_decimal(s.last_modified_timestamp as int),
    );
    let m = put_when(m, wants(names, "FifoQueue"@) && s.is_fifo, "FifoQueue"@, "true"@);
    let m = put_when(
        m,
        wants(names, "ContentBasedDeduplication"@) && s.is_fifo,
        "ContentBasedDeduplication"@,
        if s.content_based_deduplication { "true"@ } else { "false"@ },
    );
    put_when(
        m,
        wants(names, "RedrivePolicy"@) && s.redrive_policy is Some,
        "RedrivePolicy"@,
        s.redrive_policy.unwrap(),
    )
}

/// The URLs of the queues whose name starts with `prefix` (all of them without
/// one), in the order of `names`.
pub open spec fn listed_urls(names: Seq<Seq<char>>, account: Seq<char>, prefix: Option<Seq<char>>) -> Seq<
    Seq<char>,
>
    decreases names.len(),
{
    if names.len() == 0 {
        Seq::empty()
    } else {
        let rest = listed_urls(names.drop_last(), account, prefix);
        let n = names.last();
        if prefix is None || is_prefix(prefix.unwrap(), n) {
            rest.push(QueueState::queue_url(account, n))
        } else {
            rest
        }
    }
}

/// The hexadecimal MD5 digest of a text's UTF-8 bytes.
pub open spec fn body_md5(body: Seq<char>) -> Seq<char> {
    hex_lower(md5_of(vstd::utf8::encode_utf8(body)))
}

/// The error for a queue that does not exist.
pub open spec fn missing_queue(e: SqsError) -> bool {
    e.kind == SqsErrorKind::NonExistentQueue
}

/// `now` plus `secs` seconds, in milliseconds, held at the largest time.
pub open spec fn later(now: i64, secs: u32) -> i64 {
    if now + secs * 1000 > i64::MAX {
        i64::MAX
    } else {
        (now + secs * 1000) as i64
    }
}

/// The deduplication entries younger than five minutes at `now`.
pub open spec fn recent(d: Map<Seq<char>, i64>, now: i64) -> Map<Seq<char>, i64> {
    Map::new(|k: Seq<char>| d.contains_key(k) && now - d[k] < 300000, |k: Seq<char>| d[k])
}

/// The next sequence number, held at the largest one.
pub open spec fn next_counter(c: u64) -> u64 {
    if c == u64::MAX {
        c
    } else {
        (c + 1) as u64
    }
}

/// The key a FIFO message is deduplicated by: the given id, else the body's
/// digest under content-based deduplication, else the message id.
pub open spec fn dedup_key(q: QueueView, md5: Seq<char>, id: Seq<char>, dedup: Option<Seq<char>>) -> Seq<char> {
    match dedup {
        Some(d) => d,
        None => if q.attributes.content_based_deduplication {
            md5
        } else {
            id
        },
    }
}

/// The message id a send to `q` at `now` reports: for a FIFO queue whose
/// deduplication window still holds the message's key, the id of the message
/// sent under that key; else the new message's id.
pub open spec fn sent_id(q: QueueView, body: Seq<char>, id: Seq<char>, dedup: Option<Seq<char>>, now: i64) -> Seq<char> {
    let key = dedup_key(q, body_md5(body), id, dedup);
    if q.attributes.is_fifo && recent(q.dedup, now).contains_key(key) && q.dedup_ids.contains_key(key) {
        q.dedup_ids[key]
    } else {
        id
    }
}

/// The message id that the `i`th entry of a batch sent to `q` at `now`
/// reports, the entries before it having been sent.
pub open spec fn batch_sent_id(q: QueueView, entries: Seq<SendMessageBatchEntry>, ids: Seq<Seq<char>>, now: i64, i: int) -> Seq<char> {
    sent_id(
        after_batch(q, entries.take(i), ids, now),
        entries[i].message_body@,
        ids[i],
        opt_text(entries[i].message_deduplication_id),
        now,
    )
}

/// The sequence number a send to `q` reports, as text: FIFO queues only.
pub open spec fn sequence_text(q: QueueView) -> Option<Seq<char>> {
    if q.attributes.is_fifo {
        Some(decimal(next_counter(q.sequence_counter) as nat))
    } else {
        None
    }
}

/// The message attributes given, or none.
pub open spec fn attr_views(o: Option<Table<MessageAttributeValue>>) -> Map<Seq<char>, AttrView> {
    match o {
        Some(t) => t@.map_values(|a: MessageAttributeValue| a@),
        None => Map::empty(),
    }
}

/// A message as sent to `q` at `now`.
pub open spec fn new_message(
    q: QueueView,
    body: Seq<char>,
    id: Seq<char>,
    delay: Option<u32>,
    attrs: Map<Seq<char>, AttrView>,
    group: Option<Seq<char>>,
    dedup: Option<Seq<char>>,
    now: i64,
) -> MessageView {
    MessageView {
        message_id: id,
        receipt_handle: Seq::empty(),
        md5_of_body: body_md5(body),
        body,
        attributes: Map::empty().insert("ApproximateReceiveCount"@, "0"@).insert(
            "SentTimestamp"@,
            signed_decimal(now as int),
        ),
        message_attributes: attrs,
        receive_count: 0,
        sent_timestamp: now,
        first_received_timestamp: None,
        visible_at: later(
            now,
            match delay {
                Some(d) => d,
                None => q.attributes.delay_seconds,
            },
        ),
        message_group_id: group,
        message_deduplication_id: dedup,
        sequence_number: if q.attributes.is_fifo {
            Some(next_counter(q.sequence_counter))
        } else {
            None
        },
    }
}

/// Queue `q` after a message is sent to it at `now`. A FIFO queue counts the
/// send, forgets deduplication keys older than five minutes, and drops the
/// message when its key is still remembered.
pub open spec fn after_send(
    q: QueueView,
    body: Seq<char>,
    id: Seq<char>,
    delay: Option<u32>,
    attrs: Map<Seq<char>, AttrView>,
    group: Option<Seq<char>>,
    dedup: Option<Seq<char>>,
    now: i64,
) -> QueueView {
    let m = new_message(q, body, id, delay, attrs, group, dedup, now);
    if q.attributes.is_fifo {
        let key = dedup_key(q, body_md5(body), id, dedup);
        let window = recent(q.dedup, now);
        if window.contains_key(key) {
            QueueView { sequence_counter: next_counter(q.sequence_counter), dedup: window, ..q }
        } else {
            QueueView {
                sequence_counter: next_counter(q.sequence_counter),
                dedup: window.insert(key, now),
                dedup_ids: q.dedup_ids.insert(key, id),
                messages: q.messages.push(m),
                ..q
            }
        }
    } else {
        QueueView { messages: q.messages.push(m), ..q }
    }
}

/// Queue `q` after the messages of a batch are sent at `now`, with the ids `ids`.
pub open spec fn after_batch(q: QueueView, entries: Seq<SendMessageBatchEntry>, ids: Seq<Seq<char>>, now: i64) -> QueueView
    decreases entries.len(),
{
    if entries.len() == 0 {
        q
    } else {
        let e = entries.last();
        after_send(
            after_batch(q, entries.drop_last(), ids, now),
            e.message_body@,
            ids[entries.len() - 1],
            e.delay_seconds,
            attr_views(e.message_attributes),
            opt_text(e.message_group_id),
            opt_text(e.message_deduplication_id),
            now,
        )
    }
}

/// A message as received at `now` under `handle`, invisible for `vt` seconds.
pub open spec fn received(m: MessageView, handle: Seq<char>, now: i64, vt: u32) -> MessageView {
    let count = if m.receive_count == u32::MAX {
        m.receive_count
    } else {
        (m.receive_count + 1) as u32
    };
    let first = match m.first_received_timestamp {
        Some(t) => t,
        None => now,
    };
    MessageView {
        receipt_handle: handle,
        receive_count: count,
        first_received_timestamp: Some(first),
        visible_at: later(now, vt),
        attributes: m.attributes.insert("ApproximateReceiveCount"@, decimal(count as nat)).insert(
            "ApproximateFirstReceiveTimestamp"@,
            signed_decimal(first as int),
        ),
        ..m
    }
}

/// The messages in flight `m` with the received messages `rs` added under their
/// receipt handles, in order.
pub open spec fn track(m: Map<Seq<char>, MessageView>, rs: Seq<MessageView>) -> Map<Seq<char>, MessageView>
    decreases rs.len(),
{
    if rs.len() == 0 {
        m
    } else {
        track(m, rs.drop_last()).insert(rs.last().receipt_handle, rs.last())
    }
}

/// How many messages one receive takes at most: the number asked for, between
/// 1 and 10.
pub open spec fn batch_size(max: u32) -> nat {
    if max < 1 {
        1
    } else if max > 10 {
        10
    } else {
        max as nat
    }
}

/// The messages in flight `m` without the receipt handles `hs`.
pub open spec fn dropped(m: Map<Seq<char>, MessageView>, hs: Seq<Seq<char>>) -> Map<Seq<char>, MessageView>
    decreases hs.len(),
{
    if hs.len() == 0 {
        m
    } else {
        dropped(m, hs.drop_last()).remove(hs.last())
    }
}

/// The messages in flight `m` with the one under `h` made invisible until `vt`
/// seconds after `now`.
pub open spec fn retimed(m: Map<Seq<char>, MessageView>, h: Seq<char>, vt: u32, now: i64) -> Map<
    Seq<char>,
    MessageView,
> {
    if m.contains_key(h) {
        m.insert(h, MessageView { visible_at: later(now, vt), ..m[h] })
    } else {
        m
    }
}

/// The messages in flight `m` after the visibility changes of a batch.
pub open spec fn retimed_all(m: Map<Seq<char>, MessageView>, es: Seq<ChangeMessageVisibilityBatchEntry>, now: i64) -> Map<
    Seq<char>,
    MessageView,
>
    decreases es.len(),
{
    if es.len() == 0 {
        m
    } else {
        retimed(retimed_all(m, es.drop_last(), now), es.last().receipt_handle@, es.last().visibility_timeout, now)
    }
}

/// The receipt handles of a batch of deletions.
pub open spec fn delete_handles(es: Seq<DeleteMessageBatchEntry>) -> Seq<Seq<char>> {
    es.map_values(|e: DeleteMessageBatchEntry| e.receipt_handle@)
}

/// `now` plus `secs` seconds, in milliseconds, held at the largest time.
fn later_exec(now: i64, secs: u32) -> (r: i64)
    ensures
        r == later(now, secs),
{
    let d: i64 = secs as i64 * 1000;
    if now > 9223372036854775807i64 - d {
        9223372036854775807i64
    } else {
        now + d
    }
}

/// The deduplication entries younger than five minutes at `now`.
fn retain_recent(d: &Table<i64>, now: i64) -> (r: Table<i64>)
    requires
        d.wf(),
    ensures
        r.wf(),
        r@ == recent(d@, now),
{
    let n = d.len();
    proof {
        d.lemma_wf();
    }
    let mut r: Table<i64> = Table::new();
    let mut i: usize = 0;
    while i < n
        invariant
            d.wf(),
            r.wf(),
            n == d.keys().len(),
            i <= n,
            forall|j: int| 0 <= j < n ==> #[trigger] d@.contains_key(d.keys()[j]) && d@[d.keys()[j]] == d.vals()[j],
            forall|k: Seq<char>|
                #[trigger] r@.contains_key(k) ==> d@.contains_key(k) && now - d@[k] < 300000 && r@[k] == d@[k],
            forall|j: int| 0 <= j < i && now - d@[d.keys()[j]] < 300000 ==> r@.contains_key(#[trigger] d.keys()[j]),
        decreases n - i,
    {
        let (k, t) = d.entry(i);
        proof {
            assert(d@.contains_key(d.keys()[i as int]));
        }
        let age: i128 = now as i128 - *t as i128;
        if age < 300000 {
            r.insert(k.clone(), *t);
        }
        i = i + 1;
    }
    proof {
        assert forall|k: Seq<char>| #[trigger] recent(d@, now).contains_key(k) implies r@.contains_key(k) by {
            let j = choose|j: int| 0 <= j < d.keys().len() && d.keys()[j] == k;
            assert(r@.contains_key(d.keys()[j]));
        }
        assert(r@ =~= recent(d@, now));
    }
    r
}

/// Sets `key` to `value` in `t` when `cond` holds.
fn put_text(t: &mut Table<String>, cond: bool, key: &str, value: String)
    requires
        old(t).wf(),
    ensures
        final(t).wf(),
        texts(*final(t)) == put_when(texts(*old(t)), cond, key@, value@),
{
    if cond {
        let ghost v = value@;
        t.insert(copy_str(key), value);
        proof {
            lemma_map_values_insert(old(t)@, key@, final(t)@[key@], |v: String| v@);
        }
    }
}

/// Whether `names` ask for `key`.
fn wants_exec(names: &Vec<String>, all: bool, key: &str) -> (r: bool)
    requires
        all == (names@.len() == 0 || crate::text::views(names@).contains("All"@)),
    ensures
        r == wants(crate::text::views(names@), key@),
{
    if all {
        return true;
    }
    let mut i: usize = 0;
    while i < names.len()
        invariant
            i <= names@.len(),
            forall|j: int| 0 <= j < i ==> names@[j]@ != key@,
        decreases names.len() - i,
    {
        if str_eq(names[i].as_str(), key) {
            assert(crate::text::views(names@)[i as int] == key@);
            return true;
        }
        i = i + 1;
    }
    assert(!crate::text::views(names@).contains(key@));
    false
}

/// Whether `names` is empty or holds `All`.
fn wants_all(names: &Vec<String>) -> (r: bool)
    ensures
        r == (names@.len() == 0 || crate::text::views(names@).contains("All"@)),
{
    if names.len() == 0 {
        return true;
    }
    let mut i: usize = 0;
    while i < names.len()
        invariant
            i <= names@.len(),
            forall|j: int| 0 <= j < i ==> names@[j]@ != "All"@,
        decreases names.len() - i,
    {
        if str_eq(names[i].as_str(), "All") {
            assert(crate::text::views(names@)[i as int] == "All"@);
            return true;
        }
        i = i + 1;
    }
    assert(!crate::text::views(names@).contains("All"@));
    false
}

/// A number of seconds from a setting.
fn number_from(a: &Table<String>, key: &str, fallback: u32, current: u32) -> (r: u32)
    requires
        a.wf(),
    ensures
        r == number_setting(texts(*a), key@, fallback, current),
{
    match a.get(key) {
        Some(v) => match parse_u32(v.as_str()) {
            Some(n) => n,
            None => fallback,
        },
        None => current,
    }
}

/// A switch from a setting.
fn flag_from(a: &Table<String>, key: &str, current: bool) -> (r: bool)
    requires
        a.wf(),
    ensures
        r == flag_setting(texts(*a), key@, current),
{
    match a.get(key) {
        Some(v) => eq_ignore_ascii_case(v.as_str(), "true"),
        None => current,
    }
}

impl QueueAttributes {
    /// Applies the attributes given; `FifoQueue` counts only at creation.
    pub fn apply(&mut self, a: &Table<String>, at_creation: bool)
        requires
            a.wf(),
        ensures
            final(self)@ == configure(old(self)@, texts(*a), at_creation),
    {
        self.visibility_timeout = number_from(a, "VisibilityTimeout", 30, self.visibility_timeout);
        self.delay_seconds = number_from(a, "DelaySeconds", 0, self.delay_seconds);
        self.receive_wait_time_seconds =
            number_from(a, "ReceiveMessageWaitTimeSeconds", 0, self.receive_wait_time_seconds);
        self.max_message_size = number_from(a, "MaximumMessageSize", 262144, self.max_message_size);
        self.message_retention_period =
            number_from(a, "MessageRetentionPeriod", 345600, self.message_retention_period);
        if at_creation {
            self.is_fifo = flag_from(a, "FifoQueue", self.is_fifo);
        }
        self.content_based_deduplication = flag_from(a, "ContentBasedDeduplication", self.content_based_deduplication);
        match a.get("RedrivePolicy") {
            Some(v) => {
                self.redrive_policy = Some(v.clone());
            },
            None => {},
        }
    }
}

/// The attributes of a queue that `attribute_names` ask for, as a table.
#[verifier::rlimit(60)]
fn attribute_table(q: &QueueState, attribute_names: &Vec<String>) -> (t: Table<String>)
    requires
    q.wf(),
    ensures
    t.wf(),
    texts(t) == attribute_map(q@, crate::text::views(attribute_names@)),
{
    let ghost qv = q@;
    let ghost names = crate::text::views(attribute_names@);
    let all = wants_all(attribute_names);
    let mut t: Table<String> = Table::new();
    assert(texts(t) =~= Map::<Seq<char>, Seq<char>>::empty());
    let visible = q.messages.len() as u64;
    let in_flight = q.in_flight.len() as u64;
    proof {
        q.in_flight.lemma_wf();
        assert(qv.messages.len() == q.messages@.len());
        assert(qv.in_flight.dom() =~= q.in_flight@.dom());
        assert(qv.in_flight.len() == q.in_flight@.len());
    }
    let c = wants_exec(attribute_names, all, "QueueArn");
    put_text(&mut t, c, "QueueArn", q.arn.clone());
    let c = wants_exec(attribute_names, all, "ApproximateNumberOfMessages");
    put_text(&mut t, c, "ApproximateNumberOfMessages", u64_to_string(visible));
    let c = wants_exec(attribute_names, all, "ApproximateNumberOfMessagesNotVisible");
    put_text(&mut t, c, "ApproximateNumberOfMessagesNotVisible", u64_to_string(in_flight));
    let c = wants_exec(attribute_names, all, "ApproximateNumberOfMessagesDelayed");
    put_text(&mut t, c, "ApproximateNumberOfMessagesDelayed", copy_str("0"));
    let c = wants_exec(attribute_names, all, "VisibilityTimeout");
    put_text(&mut t, c, "VisibilityTimeout", u64_to_string(q.attributes.visibility_timeout as u64));
    let c = wants_exec(attribute_names, all, "DelaySeconds");
    put_text(&mut t, c, "DelaySeconds", u64_to_string(q.attributes.delay_seconds as u64));
    let c = wants_exec(attribute_names, all, "ReceiveMessageWaitTimeSeconds");
    put_text(
        &mut t,
        c,
        "ReceiveMessageWaitTimeSeconds",
        u64_to_string(q.attributes.receive_wait_time_seconds as u64),
    );
    let c = wants_exec(attribute_names, all, "MaximumMessageSize");
    put_text(&mut t, c, "MaximumMessageSize", u64_to_string(q.attributes.max_message_size as u64));
    let c = wants_exec(attribute_names, all, "MessageRetentionPeriod");
    put_text(&mut t, c, "MessageRetentionPeriod", u64_to_string(q.attributes.message_retention_period as u64));
    let c = wants_exec(attribute_names, all, "CreatedTimestamp");
    put_text(&mut t, c, "CreatedTimestamp", i64_to_string(q.attributes.created_timestamp));
    let c = wants_exec(attribute_names, all, "LastModifiedTimestamp");
    put_text(&mut t, c, "LastModifiedTimestamp", i64_to_string(q.attributes.last_modified_timestamp));
    let c = wants_exec(attribute_names, all, "FifoQueue") && q.attributes.is_fifo;
    put_text(&mut t, c, "FifoQueue", copy_str("true"));
    let c = wants_exec(attribute_names, all, "ContentBasedDeduplication") && q.attributes.is_fifo;
    let cbd = if q.attributes.content_based_deduplication { copy_str("true") } else { copy_str("false") };
    put_text(&mut t, c, "ContentBasedDeduplication", cbd);
    let c = wants_exec(attribute_names, all, "RedrivePolicy") && q.attributes.redrive_policy.is_some();
    let rp = match &q.attributes.redrive_policy {
        Some(p) => p.clone(),
        None => String::new(),
    };
    put_text(&mut t, c, "RedrivePolicy", rp);
    t
}

/// How many messages a receive of up to `max` takes from `q`.
pub open spec fn taken(q: QueueView, max: u32) -> nat {
    if batch_size(max) < q.messages.len() {
        batch_size(max)
    } else {
        q.messages.len()
    }
}

/// How long received messages stay invisible: the time asked for, or the
/// queue's visibility timeout.
pub open spec fn visibility_for(q: QueueView, vt_opt: Option<u32>) -> u32 {
    match vt_opt {
        Some(v) => v,
        None => q.attributes.visibility_timeout,
    }
}

/// `rs` are the messages a receive from `q` (already refreshed) at `now` gives:
/// the first ones waiting, each received under a fresh 36-character handle.
pub open spec fn receipts(q: QueueView, max: u32, vt_opt: Option<u32>, now: i64, rs: Seq<SqsMessage>) -> bool {
    &&& rs.len() == taken(q, max)
    &&& forall|i: int|
        0 <= i < rs.len() ==> {
            &&& (#[trigger] rs[i])@ == received(q.messages[i], rs[i].receipt_handle@, now, visibility_for(q, vt_opt))
            &&& rs[i].receipt_handle@.len() == 36
            &&& rs[i].wf()
        }
}

/// Queue `q` (already refreshed) after the messages `rs` are received from it.
pub open spec fn after_receive(q: QueueView, max: u32, rs: Seq<SqsMessage>) -> QueueView {
    with_messages(q, q.messages.skip(taken(q, max) as int), track(q.in_flight, message_views(rs)))
}

/// Queue `q` with other waiting messages and messages in flight.
pub open spec fn with_messages(q: QueueView, msgs: Seq<MessageView>, in_flight: Map<Seq<char>, MessageView>) -> QueueView {
    QueueView { messages: msgs, in_flight, ..q }
}

impl QueueState {
    /// Sends a message with id `id` at `now`: gives the body's digest and, for a
    /// FIFO queue, the sequence number.
    pub fn send(
        &mut self,
        body: String,
        delay: Option<u32>,
        attrs: Option<Table<MessageAttributeValue>>,
        group: Option<String>,
        dedup: Option<String>,
        id: String,
        now: i64,
    ) -> (r: (String, String, Option<String>))
        requires
            old(self).wf(),
            attrs matches Some(t) ==> t.wf(),
        ensures
            final(self).wf(),
            final(self)@ == after_send(
                old(self)@,
                body@,
                id@,
                delay,
                attr_views(attrs),
                opt_text(group),
                opt_text(dedup),
                now,
            ),
            r.0@ == sent_id(old(self)@, body@, id@, opt_text(dedup), now),
            r.1@ == body_md5(body@),
            opt_text(r.2) == sequence_text(old(self)@),
    {
        let ghost q = self@;
        let ghost m = new_message(self@, body@, id@, delay, attr_views(attrs), opt_text(group), opt_text(dedup), now);
        let out_id = id.clone();
        let md5 = SqsEngine::calculate_md5(body.as_str());
        let vis_delay = match delay {
            Some(d) => d,
            None => self.attributes.delay_seconds,
        };
        let visible_at = later_exec(now, vis_delay);
        let mut seq_str: Option<String> = None;
        let mut seq_num: Option<u64> = None;
        if self.attributes.is_fifo {
            if self.sequence_counter < 18446744073709551615u64 {
                self.sequence_counter = self.sequence_counter + 1;
            }
            seq_str = Some(u64_to_string(self.sequence_counter));
            seq_num = Some(self.sequence_counter);
            let key = match &dedup {
                Some(d) => d.clone(),
                None => if self.attributes.content_based_deduplication {
                    md5.clone()
                } else {
                    id.clone()
                },
            };
            assert(key@ == dedup_key(q, body_md5(body@), id@, opt_text(dedup)));
            self.dedup_cache = retain_recent(&self.dedup_cache, now);
            if self.dedup_cache.contains(key.as_str()) {
                let earlier = match self.dedup_ids.get(key.as_str()) {
                    Some(x) => x.clone(),
                    None => id,
                };
                return (earlier, md5, seq_str);
            }
            let ghost ids0 = self.dedup_ids@;
            self.dedup_ids.insert(key.clone(), id.clone());
            proof {
                lemma_map_values_insert(ids0, key@, id, |s: String| s@);
            }
            self.dedup_cache.insert(key, now);
        }
        let mut attributes: Table<String> = Table::new();
        attributes.insert(copy_str("ApproximateReceiveCount"), copy_str("0"));
        attributes.insert(copy_str("SentTimestamp"), i64_to_string(now));
        let message_attributes = match attrs {
            Some(t) => t,
            None => Table::new(),
        };
        let msg = SqsMessage {
            message_id: id,
            receipt_handle: String::new(),
            md5_of_body: md5.clone(),
            body,
            attributes,
            message_attributes,
            receive_count: 0,
            sent_timestamp: now,
            first_received_timestamp: None,
            visible_at,
            message_group_id: group,
            message_deduplication_id: dedup,
            sequence_number: seq_num,
        };
        proof {
            assert(texts(msg.attributes) =~= Map::empty().insert("ApproximateReceiveCount"@, "0"@).insert(
                "SentTimestamp"@,
                signed_decimal(now as int),
            ));
            assert(msg.message_attributes@.map_values(|a: MessageAttributeValue| a@) =~= attr_views(attrs));
            assert(msg@ == m);
        }
        let ghost before = self.messages@;
        self.messages.push(msg);
        proof {
            assert(message_views(self.messages@) =~= message_views(before).push(m));
            assert forall|i: int| 0 <= i < self.messages@.len() implies (#[trigger] self.messages@[i]).wf() by {
                if i < before.len() {
                    assert(self.messages@[i] == before[i]);
                }
            }
        }
        (out_id, md5, seq_str)
    }

    /// Receives up to `max` messages (between 1 and 10) at `now`, after putting
    /// back the messages whose visibility ran out. Each gets a fresh receipt
    /// handle and stays in flight for `vt_opt` seconds, or the queue's
    /// visibility timeout.
    pub fn receive(&mut self, max: u32, vt_opt: Option<u32>, now: i64) -> (r: Vec<SqsMessage>)
        requires
            old(self).wf(),
        ensures
            final(self).wf(),
            receipts(old(self).refreshed(now), max, vt_opt, now, r@),
            final(self)@ == after_receive(old(self).refreshed(now), max, r@),
    {
        self.check_expired_in_flight(now);
        self.receive_waiting(max, vt_opt, now)
    }

    /// Takes out the waiting messages received `limit` times or more, keeping
    /// the others in order.
    pub fn take_poisoned(&mut self, limit: u64) -> (r: Vec<SqsMessage>)
        requires
            old(self).wf(),
        ensures
            final(self).wf(),
            final(self)@ == with_messages(old(self)@, healthy(old(self)@.messages, limit), old(self)@.in_flight),
            message_views(r@) == poisoned(old(self)@.messages, limit),
            forall|i: int| 0 <= i < r@.len() ==> (#[trigger] r@[i]).wf(),
    {
        let ghost q0 = self@;
        let ghost all0 = self.messages@;
        let mut all: Vec<SqsMessage> = Vec::new();
        std::mem::swap(&mut all, &mut self.messages);
        let mut keep: Vec<SqsMessage> = Vec::new();
        let mut poison: Vec<SqsMessage> = Vec::new();
        let ghost mut k: int = 0;
        assert(all0.subrange(0, 0) =~= Seq::<SqsMessage>::empty());
        assert(all@ =~= all0.skip(0));
        while all.len() > 0
            invariant
                0 <= k <= all0.len(),
                all@ == all0.skip(k),
                forall|i: int| 0 <= i < all0.len() ==> (#[trigger] all0[i]).wf(),
                message_views(keep@) == healthy(message_views(all0.subrange(0, k)), limit),
                message_views(poison@) == poisoned(message_views(all0.subrange(0, k)), limit),
                forall|i: int| 0 <= i < keep@.len() ==> (#[trigger] keep@[i]).wf(),
                forall|i: int| 0 <= i < poison@.len() ==> (#[trigger] poison@[i]).wf(),
            decreases all@.len(),
        {
            let m = all.remove(0);
            proof {
                assert(m == all0[k]);
                assert(all@ =~= all0.skip(k + 1));
                assert(message_views(all0.subrange(0, k + 1)).drop_last() =~= message_views(all0.subrange(0, k)));
                assert(message_views(all0.subrange(0, k + 1)).last() == m@);
            }
            let ghost kb = keep@;
            let ghost pb = poison@;
            if (m.receive_count as u64) >= limit {
                poison.push(m);
                assert(message_views(poison@) =~= message_views(pb).push(all0[k]@));
                assert(message_views(keep@) =~= message_views(kb));
            } else {
                keep.push(m);
                assert(message_views(keep@) =~= message_views(kb).push(all0[k]@));
                assert(message_views(poison@) =~= message_views(pb));
            }
            proof {
                k = k + 1;
            }
        }
        proof {
            assert(all0.subrange(0, k) =~= all0);
        }
        self.messages = keep;
        assert(self@ =~= with_messages(q0, healthy(q0.messages, limit), q0.in_flight));
        poison
    }

    /// Adds messages at the end of the waiting ones.
    pub fn append_messages(&mut self, ms: Vec<SqsMessage>)
        requires
            old(self).wf(),
            forall|i: int| 0 <= i < ms@.len() ==> (#[trigger] ms@[i]).wf(),
        ensures
            final(self).wf(),
            final(self)@ == with_messages(old(self)@, old(self)@.messages + message_views(ms@), old(self)@.in_flight),
    {
        let ghost q0 = self@;
        let ghost m0 = self.messages@;
        let mut ms = ms;
        let ghost ms0 = ms@;
        self.messages.append(&mut ms);
        assert(message_views(self.messages@) =~= message_views(m0) + message_views(ms0));
        assert forall|i: int| 0 <= i < self.messages@.len() implies (#[trigger] self.messages@[i]).wf() by {
            if i >= m0.len() {
                assert(self.messages@[i] == ms0[i - m0.len()]);
            }
        }
        assert(self@ =~= with_messages(q0, q0.messages + message_views(ms0), q0.in_flight));
    }

    /// Receives up to `max` of the waiting messages at `now`, as `receive`
    /// does once expired messages are back.
    pub fn receive_waiting(&mut self, max: u32, vt_opt: Option<u32>, now: i64) -> (r: Vec<SqsMessage>)
        requires
            old(self).wf(),
        ensures
            final(self).wf(),
            receipts(old(self)@, max, vt_opt, now, r@),
            final(self)@ == after_receive(old(self)@, max, r@),
    {
        let ghost q0 = self@;
        let vt = match vt_opt {
            Some(v) => v,
            None => self.attributes.visibility_timeout,
        };
        let cap: usize = if max < 1 {
            1
        } else if max > 10 {
            10
        } else {
            max as usize
        };
        let mut result: Vec<SqsMessage> = Vec::new();
        assert(q0.messages.skip(0) =~= q0.messages);
        assert(track(q0.in_flight, message_views(result@)) == q0.in_flight);
        while result.len() < cap && self.messages.len() > 0
            invariant
                self.wf(),
                cap == batch_size(max),
                result@.len() <= cap,
                result@.len() <= q0.messages.len(),
                vt == (match vt_opt {
                    Some(v) => v,
                    None => q0.attributes.visibility_timeout,
                }),
                self@ == with_messages(
                    q0,
                    q0.messages.skip(result@.len() as int),
                    track(q0.in_flight, message_views(result@)),
                ),
                forall|i: int|
                    0 <= i < result@.len() ==> {
                        &&& (#[trigger] result@[i])@ == received(q0.messages[i], result@[i].receipt_handle@, now, vt)
                        &&& result@[i].receipt_handle@.len() == 36
                        &&& result@[i].wf()
                    },
            decreases self.messages@.len(),
        {
            let ghost j = result@.len();
            let ghost before = result@;
            let ghost msgs0 = self.messages@;
            proof {
                assert(self@.messages == q0.messages.skip(j as int));
                assert(message_views(msgs0).len() == msgs0.len());
                assert(self@.messages[0] == q0.messages.skip(j as int)[0]);
                assert(msgs0[0]@ == q0.messages[j as int]);
                assert(msgs0[0].wf());
            }
            let mut msg = self.messages.remove(0);
            proof {
                assert(self.messages@ =~= msgs0.subrange(1, msgs0.len() as int));
                assert(message_views(msgs0) == q0.messages.skip(j as int));
                assert forall|i: int| 0 <= i < self.messages@.len() implies #[trigger] message_views(self.messages@)[i]
                    == q0.messages.skip((j + 1) as int)[i] by {
                    assert(self.messages@[i] == msgs0[i + 1]);
                    assert(message_views(msgs0)[i + 1] == q0.messages.skip(j as int)[i + 1]);
                }
                assert(message_views(self.messages@) =~= q0.messages.skip((j + 1) as int));
            }
            let handle = new_uuid();
            msg.receipt_handle = handle.clone();
            if msg.receive_count < 4294967295u32 {
                msg.receive_count = msg.receive_count + 1;
            }
            let first = match msg.first_received_timestamp {
                Some(t) => t,
                None => now,
            };
            msg.first_received_timestamp = Some(first);
            msg.visible_at = later_exec(now, vt);
            let ghost attrs0 = msg.attributes@;
            msg.attributes.insert(copy_str("ApproximateReceiveCount"), u64_to_string(msg.receive_count as u64));
            msg.attributes.insert(copy_str("ApproximateFirstReceiveTimestamp"), i64_to_string(first));
            proof {
                assert(texts(msg.attributes) =~= attrs0.map_values(|v: String| v@).insert(
                    "ApproximateReceiveCount"@,
                    decimal(msg.receive_count as nat),
                ).insert("ApproximateFirstReceiveTimestamp"@, signed_decimal(first as int)));
                assert(msg@ == received(q0.messages[j as int], handle@, now, vt));
            }
            let ghost inflight0 = self.in_flight@;
            self.in_flight.insert(handle, msg.copy());
            result.push(msg);
            proof {
                assert(message_views(result@).drop_last() =~= message_views(before));
                lemma_map_values_insert(inflight0, result@[j as int].receipt_handle@, result@[j as int], |m: SqsMessage| m@);
                assert(self@.in_flight =~= track(q0.in_flight, message_views(result@)));
                assert forall|i: int| 0 <= i < result@.len() implies {
                    &&& (#[trigger] result@[i])@ == received(q0.messages[i], result@[i].receipt_handle@, now, vt)
                    &&& result@[i].receipt_handle@.len() == 36
                    &&& result@[i].wf()
                } by {
                    if i < j {
                        assert(result@[i] == before[i]);
                    }
                }
                assert forall|k: Seq<char>| #[trigger] self.in_flight@.contains_key(k) implies self.in_flight@[k].wf() by {
                    if k != result@[j as int].receipt_handle@ {
                        assert(inflight0.contains_key(k));
                    }
                }
            }
        }
        proof {
            assert(message_views(self.messages@).len() == self.messages@.len());
            assert(self@.messages.len() == q0.messages.len() - result@.len());
        }
        result
    }

    /// Drops the message in flight under receipt handle `h`.
    pub fn forget(&mut self, h: &str)
        requires
            old(self).wf(),
        ensures
            final(self).wf(),
            final(self)@ == with_messages(old(self)@, old(self)@.messages, old(self)@.in_flight.remove(h@)),
    {
        let ghost m0 = self.in_flight@;
        let _ = self.in_flight.remove(h);
        proof {
            lemma_map_values_remove(m0, h@, |m: SqsMessage| m@);
        }
    }

    /// Keeps the message in flight under `h`, if any, invisible until `vt`
    /// seconds after `now`.
    pub fn retime(&mut self, h: &str, vt: u32, now: i64)
        requires
            old(self).wf(),
        ensures
            final(self).wf(),
            final(self)@ == with_messages(old(self)@, old(self)@.messages, retimed(old(self)@.in_flight, h@, vt, now)),
    {
        let ghost m0 = self.in_flight@;
        match self.in_flight.remove(h) {
            Some(mut msg) => {
                assert(m0.contains_key(h@));
                msg.visible_at = later_exec(now, vt);
                let ghost mv = msg;
                self.in_flight.insert(copy_str(h), msg);
                proof {
                    lemma_map_values_insert(m0.remove(h@), h@, mv, |m: SqsMessage| m@);
                    assert(m0.remove(h@).insert(h@, mv) =~= m0.insert(h@, mv));
                    lemma_map_values_insert(m0, h@, mv, |m: SqsMessage| m@);
                    assert(self@.in_flight =~= retimed(old(self)@.in_flight, h@, vt, now));
                    assert forall|k: Seq<char>| #[trigger] self.in_flight@.contains_key(k) implies self.in_flight@[k].wf() by {
                        if k != h@ {
                            assert(m0.contains_key(k));
                        }
                    }
                }
            },
            None => {
                assert(self@.in_flight =~= retimed(old(self)@.in_flight, h@, vt, now));
            },
        }
    }
}

/// What `SqsEngine::create_queue` does.
pub open spec fn queue_created(e0: SqsEngine, e1: SqsEngine, name: Seq<char>, attributes: Option<Table<String>>, r: Result<String, SqsError>) -> bool {
    &&& e1.wf()
    &&& e1.account() == e0.account()
    &&& e1.home_region() == e0.home_region()
    &&& r is Ok
    &&& e0@.contains_key(name) ==> e1@ == e0@ && r->Ok_0@ == e0@[name].url
    &&& !e0@.contains_key(name) ==> {
        &&& r->Ok_0@ == QueueState::queue_url(e0.account(), name)
        &&& e1@ == e0@.insert(
            name,
            QueueView {
                name: name,
                url: QueueState::queue_url(e0.account(), name),
                arn: QueueState::queue_arn(e0.home_region(), e0.account(), name),
                attributes: created_settings(
                    name,
                    match attributes {
                        Some(a) => texts(a),
                        None => Map::empty(),
                    },
                    e1@[name].attributes.created_timestamp,
                ),
                messages: Seq::empty(),
                in_flight: Map::empty(),
                dedup: Map::empty(),
                dedup_ids: Map::empty(),
                sequence_counter: 0,
            },
        )
    }
}

/// What `SqsEngine::delete_queue` does.
pub open spec fn queue_deleted(e0: SqsEngine, e1: SqsEngine, queue_id: Seq<char>, r: Result<(), SqsError>) -> bool {
    &&& e1.wf()
    &&& e1.account() == e0.account()
    &&& e1.home_region() == e0.home_region()
    &&& e0@.contains_key(resolved_name(queue_id)) ==> r is Ok && e1@ == e0@.remove(
        resolved_name(queue_id)
    )
    &&& !e0@.contains_key(resolved_name(queue_id)) ==> (r matches Err(e) && missing_queue(e) && e1@ == e0@)
}

/// What `SqsEngine::purge_queue` does.
pub open spec fn queue_purged(e0: SqsEngine, e1: SqsEngine, queue_id: Seq<char>, r: Result<(), SqsError>) -> bool {
    &&& e1.wf()
    &&& e1.account() == e0.account()
    &&& e1.home_region() == e0.home_region()
    &&& e0@.contains_key(resolved_name(queue_id)) ==> r is Ok && e1@ == e0@.insert(
        resolved_name(queue_id),
        QueueState::purged(e0@[resolved_name(queue_id)])
    )
    &&& !e0@.contains_key(resolved_name(queue_id)) ==> (r matches Err(e) && missing_queue(e) && e1@ == e0@)
}

/// What `SqsEngine::get_queue_attributes` does.
pub open spec fn attributes_read(e0: SqsEngine, e1: SqsEngine, queue_id: Seq<char>, r: Result<Table<String>, SqsError>) -> bool {
    &&& r matches Ok(t) ==> t.wf()
    &&& e1.wf()
    &&& e1.account() == e0.account()
    &&& e1.home_region() == e0.home_region()
    &&& e0@.contains_key(resolved_name(queue_id)) <==> r is Ok
    &&& r matches Err(e) ==> missing_queue(e) && e1@ == e0@
}

/// What `SqsEngine::set_queue_attributes` does.
pub open spec fn attributes_set(e0: SqsEngine, e1: SqsEngine, queue_id: Seq<char>, attributes: Table<String>, r: Result<(), SqsError>) -> bool {
    &&& e1.wf()
    &&& e1.account() == e0.account()
    &&& e1.home_region() == e0.home_region()
    &&& ({
        let name = resolved_name(queue_id);
        &&& e0@.contains_key(name) ==> {
            let q = e0@[name];
            &&& r is Ok
            &&& e1@ == e0@.insert(
                name,
                QueueView {
                    attributes: configure(
                        SettingsView {
                            last_modified_timestamp: e1@[name].attributes.last_modified_timestamp,
                            ..q.attributes
                        },
                        texts(attributes),
                        false,
                    ),
                    ..q
                },
            )
        }
        &&& !e0@.contains_key(name) ==> (r matches Err(e) && missing_queue(e) && e1@ == e0@)
    })
}

/// What `SqsEngine::send_message` does.
pub open spec fn message_sent(e0: SqsEngine, e1: SqsEngine, queue_id: Seq<char>, body: Seq<char>, delay_seconds: Option<u32>, message_attributes: Option<Table<MessageAttributeValue>>, message_group_id: Option<String>, message_deduplication_id: Option<String>, r: Result<(String, String, Option<String>), SqsError>) -> bool {
    &&& e1.wf()
    &&& e1.account() == e0.account()
    &&& e1.home_region() == e0.home_region()
    &&& ({
        let name = resolved_name(queue_id);
        &&& e0@.contains_key(name) ==> {
            let q = e0@[name];
            &&& r matches Ok((id, md5, seq)) && md5@ == body_md5(body) && opt_text(seq) == sequence_text(q)
            &&& exists|fresh: Seq<char>, now: i64|
                fresh.len() == 36 && r->Ok_0.0@ == sent_id(q, body, fresh, opt_text(message_deduplication_id), now)
                    && e1@ == e0@.insert(
                    name,
                    #[trigger] after_send(
                        q,
                        body,
                        fresh,
                        delay_seconds,
                        attr_views(message_attributes),
                        opt_text(message_group_id),
                        opt_text(message_deduplication_id),
                        now,
                    ),
                )
        }
        &&& !e0@.contains_key(name) ==> (r matches Err(e) && missing_queue(e) && e1@ == e0@)
    })
}

/// What `SqsEngine::send_message_batch` does.
pub open spec fn batch_sent(e0: SqsEngine, e1: SqsEngine, queue_id: Seq<char>, entries: Seq<SendMessageBatchEntry>, r: Result<(Vec<SendMessageBatchResultEntry>, Vec<BatchErrorEntry>), SqsError>) -> bool {
    &&& e1.wf()
    &&& e1.account() == e0.account()
    &&& e1.home_region() == e0.home_region()
    &&& r matches Ok((ok, failed)) && failed@.len() == 0 && ({
        let name = resolved_name(queue_id);
        &&& e0@.contains_key(name) ==> {
            &&& ok@.len() == entries.len()
            &&& forall|i: int|
                0 <= i < ok@.len() ==> {
                    &&& (#[trigger] ok@[i]).id@ == entries[i].id@
                    &&& ok@[i].md5_of_message_body@ == body_md5(entries[i].message_body@)
                }
            &&& exists|ids: Seq<Seq<char>>, now: i64|
                #![trigger after_batch(e0@[name], entries, ids, now)]
                ids.len() >= entries.len() && (forall|i: int| 0 <= i < entries.len() ==> (#[trigger] ids[i]).len() == 36)
                    && e1@ == e0@.insert(name, after_batch(e0@[name], entries, ids, now)) && forall|i: int|
                    0 <= i < ok@.len() ==> (#[trigger] ok@[i]).message_id@ == batch_sent_id(e0@[name], entries, ids, now, i)
        }
        &&& !e0@.contains_key(name) ==> ok@.len() == 0 && e1@ == e0@
    })
}

/// What `SqsEngine::receive_message` does.
pub open spec fn messages_received(
    e0: SqsEngine,
    e1: SqsEngine,
    queue_id: Seq<char>,
    max_number_of_messages: u32,
    visibility_timeout: Option<u32>,
    r: Result<Vec<SqsMessage>, SqsError>,
) -> bool {
    &&& r matches Ok(rs) ==> forall|i: int| 0 <= i < rs@.len() ==> (#[trigger] rs@[i]).wf()
    &&& e1.wf()
    &&& e1.account() == e0.account()
    &&& e1.home_region() == e0.home_region()
    &&& e0@.contains_key(resolved_name(queue_id)) <==> r is Ok
    &&& r matches Ok(rs) ==> rs@.len() <= batch_size(max_number_of_messages)
    &&& r matches Err(e) ==> missing_queue(e) && e1@ == e0@
    &&& r matches Ok(rs) ==> exists|now: i64|
        #![trigger e0.queue(resolved_name(queue_id)).refreshed(now)]
        receipts(redriven(e0@, e0.queue(resolved_name(queue_id)).refreshed(now)).0, max_number_of_messages, visibility_timeout, now, rs@)
            && e1@ == redriven(e0@, e0.queue(resolved_name(queue_id)).refreshed(now)).1.insert(
            resolved_name(queue_id),
            after_receive(redriven(e0@, e0.queue(resolved_name(queue_id)).refreshed(now)).0, max_number_of_messages, rs@),
        )
}

/// What a redrive policy's text holds when read as JSON: the
/// `deadLetterTargetArn` member when it is a string, and the
/// `maxReceiveCount` member when it is an unsigned integer and when it is a
/// string; `None` when the text is not JSON.
pub uninterp spec fn redrive_fields_of(policy: Seq<char>) -> Option<(Option<Seq<char>>, Option<u64>, Option<Seq<char>>)>;

/// `serde_json::from_str` on a redrive policy, with the members
/// `deadLetterTargetArn` (as a string) and `maxReceiveCount` (as an unsigned
/// integer, or as a string) picked out; `None` when the text is not JSON.
#[verifier::external_body]
fn redrive_fields(policy: &str) -> (r: Option<(Option<String>, Option<u64>, Option<String>)>)
    ensures
        match r {
            Some((a, n, t)) => redrive_fields_of(policy@) == Some((opt_text(a), n, opt_text(t))),
            None => redrive_fields_of(policy@) is None,
        },
{
    let v: serde_json::Value = serde_json::from_str(policy).ok()?;
    let count = v.get("maxReceiveCount");
    Some((
        v.get("deadLetterTargetArn").and_then(|a| a.as_str()).map(|a| a.to_string()),
        count.and_then(|c| c.as_u64()),
        count.and_then(|c| c.as_str()).map(|c| c.to_string()),
    ))
}

/// The dead-letter queue that a queue's redrive policy names, if any.
pub open spec fn redrive_target(policy: Option<Seq<char>>) -> Option<Seq<char>> {
    match policy {
        Some(p) => match redrive_fields_of(p) {
            Some((arn, _, _)) => arn,
            None => None,
        },
        None => None,
    }
}

/// The receive count at which a redrive policy moves messages on.
fn redrive_limit_exec(policy: &Option<String>) -> (r: Option<u64>)
    ensures
        r == redrive_limit(opt_text(*policy)),
{
    match policy {
        Some(p) => match redrive_fields(p.as_str()) {
            Some((_, Some(n), _)) => Some(n),
            Some((_, None, Some(t))) => parse_u64(t.as_str()),
            _ => None,
        },
        None => None,
    }
}

/// The dead-letter queue that a redrive policy names.
fn redrive_target_of(policy: &Option<String>) -> (r: Option<String>)
    ensures
        opt_text(r) == redrive_target(opt_text(*policy)),
{
    match policy {
        Some(p) => match redrive_fields(p.as_str()) {
            Some((arn, _, _)) => arn,
            None => None,
        },
        None => None,
    }
}

/// The URLs of the queues named in `names` (in that order) whose redrive
/// policy names the queue with ARN `arn`.
pub open spec fn dead_letter_sources(m: Map<Seq<char>, QueueView>, names: Seq<Seq<char>>, arn: Seq<char>) -> Seq<Seq<char>>
    decreases names.len(),
{
    if names.len() == 0 {
        Seq::empty()
    } else {
        let rest = dead_letter_sources(m, names.drop_last(), arn);
        let q = m[names.last()];
        if redrive_target(q.attributes.redrive_policy) == Some(arn) {
            rest.push(q.url)
        } else {
            rest
        }
    }
}

/// The receive count at which a redrive policy moves messages on: its
/// `maxReceiveCount`, as a number or as decimal text.
pub open spec fn redrive_limit(policy: Option<Seq<char>>) -> Option<u64> {
    match policy {
        Some(p) => match redrive_fields_of(p) {
            Some((_, Some(n), _)) => Some(n),
            Some((_, None, Some(t))) => parse_u64_spec(t),
            _ => None,
        },
        None => None,
    }
}

/// The queue name at the end of an ARN (after its last `:`).
pub open spec fn arn_queue_name(arn: Seq<char>) -> Seq<char> {
    split_on(arn, ':').last()
}

/// The queue that takes `q`'s messages once they have been received too often:
/// the queue of the service, other than `q`, whose ARN `q`'s redrive policy
/// names, when the policy also names a receive count.
pub open spec fn dead_letter_name(m: Map<Seq<char>, QueueView>, q: QueueView) -> Option<Seq<char>> {
    match (redrive_target(q.attributes.redrive_policy), redrive_limit(q.attributes.redrive_policy)) {
        (Some(arn), Some(_)) => {
            let d = arn_queue_name(arn);
            if m.contains_key(d) && m[d].arn == arn && d != q.name {
                Some(d)
            } else {
                None
            }
        },
        _ => None,
    }
}

/// The messages received `limit` times or more, in order.
pub open spec fn poisoned(ms: Seq<MessageView>, limit: u64) -> Seq<MessageView>
    decreases ms.len(),
{
    if ms.len() == 0 {
        Seq::empty()
    } else {
        let rest = poisoned(ms.drop_last(), limit);
        if ms.last().receive_count >= limit { rest.push(ms.last()) } else { rest }
    }
}

/// The messages received fewer than `limit` times, in order.
pub open spec fn healthy(ms: Seq<MessageView>, limit: u64) -> Seq<MessageView>
    decreases ms.len(),
{
    if ms.len() == 0 {
        Seq::empty()
    } else {
        let rest = healthy(ms.drop_last(), limit);
        if ms.last().receive_count < limit { rest.push(ms.last()) } else { rest }
    }
}

/// A receive from `q` (refreshed, stored under `name` in `m`) first moves the
/// waiting messages received too often to the dead-letter queue, at the end of
/// its waiting messages: the source queue that is left, and the service with
/// the dead-letter queue so changed.
pub open spec fn redriven(m: Map<Seq<char>, QueueView>, q: QueueView) -> (QueueView, Map<Seq<char>, QueueView>) {
    match dead_letter_name(m, q) {
        Some(d) => {
            let limit = redrive_limit(q.attributes.redrive_policy)->0;
            (
                with_messages(q, healthy(q.messages, limit), q.in_flight),
                m.insert(d, with_messages(m[d], m[d].messages + poisoned(q.messages, limit), m[d].in_flight)),
            )
        },
        None => (q, m),
    }
}

/// What `SqsEngine::delete_message` does.
pub open spec fn message_deleted(e0: SqsEngine, e1: SqsEngine, queue_id: Seq<char>, receipt_handle: Seq<char>, r: Result<(), SqsError>) -> bool {
    &&& e1.wf()
    &&& e1.account() == e0.account()
    &&& e1.home_region() == e0.home_region()
    &&& ({
        let name = resolved_name(queue_id);
        &&& e0@.contains_key(name) ==> {
            let q = e0@[name];
            &&& r is Ok
            &&& e1@ == e0@.insert(
                name,
                with_messages(q, q.messages, q.in_flight.remove(receipt_handle)),
            )
        }
        &&& !e0@.contains_key(name) ==> (r matches Err(e) && missing_queue(e) && e1@ == e0@)
    })
}

/// What `SqsEngine::delete_message_batch` does.
pub open spec fn batch_deleted(e0: SqsEngine, e1: SqsEngine, queue_id: Seq<char>, entries: Seq<DeleteMessageBatchEntry>, r: Result<(Vec<String>, Vec<BatchErrorEntry>), SqsError>) -> bool {
    &&& e1.wf()
    &&& e1.account() == e0.account()
    &&& e1.home_region() == e0.home_region()
    &&& ({
        let name = resolved_name(queue_id);
        &&& e0@.contains_key(name) ==> {
            let q = e0@[name];
            &&& r matches Ok((ok, failed)) && failed@.len() == 0 && crate::text::views(ok@) == entries.map_values(
                |e: DeleteMessageBatchEntry| e.id@,
            )
            &&& e1@ == e0@.insert(
                name,
                with_messages(q, q.messages, dropped(q.in_flight, delete_handles(entries))),
            )
        }
        &&& !e0@.contains_key(name) ==> (r matches Err(e) && missing_queue(e) && e1@ == e0@)
    })
}

/// What `SqsEngine::change_message_visibility` does.
pub open spec fn visibility_changed(e0: SqsEngine, e1: SqsEngine, queue_id: Seq<char>, r: Result<(), SqsError>) -> bool {
    &&& e1.wf()
    &&& e1.account() == e0.account()
    &&& e1.home_region() == e0.home_region()
    &&& e0@.contains_key(resolved_name(queue_id)) <==> r is Ok
    &&& r matches Err(e) ==> missing_queue(e) && e1@ == e0@
}

/// The queue service.
pub struct SqsEngine {
    queues: Table<QueueState>,
    account_id: String,
    region: String,
}

impl SqsEngine {
    /// Every queue, by name.
    pub closed spec fn view(&self) -> Map<Seq<char>, QueueView> {
        self.queues@.map_values(|q: QueueState| q@)
    }

    /// The account the queues belong to.
    pub closed spec fn account(&self) -> Seq<char> {
        self.account_id@
    }

    /// The region the queues live in.
    pub closed spec fn home_region(&self) -> Seq<char> {
        self.region@
    }

    /// The names of the queues, in ascending order.
    pub closed spec fn queue_names(&self) -> Seq<Seq<char>> {
        self.queues.keys()
    }

    /// The queue stored under `name`.
    pub closed spec fn queue(&self, name: Seq<char>) -> QueueState {
        self.queues@[name]
    }

    /// Each queue is well formed and stored under its own name, with the URL and
    /// ARN that the account and region give it.
    pub closed spec fn wf(&self) -> bool {
        &&& self.queues.wf()
        &&& forall|k: Seq<char>| #[trigger]
            self.queues@.contains_key(k) ==> {
                let q = self.queues@[k];
                &&& q.wf()
                &&& q.name@ == k
                &&& q.url@ == QueueState::queue_url(self.account_id@, k)
                &&& q.arn@ == QueueState::queue_arn(self.region@, self.account_id@, k)
            }
    }

    /// What a well-formed service states of its queues.
    pub proof fn lemma_wf(&self)
        requires
            self.wf(),
        ensures
            forall|k: Seq<char>| #[trigger]
                self@.contains_key(k) ==> {
                    &&& self@[k] == self.queue(k)@
                    &&& self.queue(k).wf()
                    &&& self@[k].name == k
                    &&& self@[k].url == QueueState::queue_url(self.account(), k)
                    &&& self@[k].arn == QueueState::queue_arn(self.home_region(), self.account(), k)
                },
            forall|k: Seq<char>| self@.contains_key(k) <==> self.queue_names().contains(k),
    {
        self.queues.lemma_wf();
        assert forall|k: Seq<char>| self@.contains_key(k) <==> self.queue_names().contains(k) by {
            if self@.contains_key(k) {
                let i = choose|i: int| 0 <= i < self.queues.keys().len() && self.queues.keys()[i] == k;
                assert(self.queue_names()[i] == k);
            }
            if self.queue_names().contains(k) {
                let i = choose|i: int| 0 <= i < self.queue_names().len() && self.queue_names()[i] == k;
                assert(self.queues@.contains_key(self.queues.keys()[i]));
            }
        }
    }

    /// An empty service for an account and region.
    pub fn new(account_id: String, region: String) -> (e: Self)
        ensures
            e.wf(),
            e@ == Map::<Seq<char>, QueueView>::empty(),
            e.account() == account_id@,
            e.home_region() == region@,
    {
        let e = SqsEngine { queues: Table::new(), account_id, region };
        assert(e@ =~= Map::<Seq<char>, QueueView>::empty());
        e
    }

    /// The hexadecimal MD5 digest of a text's UTF-8 bytes.
    pub fn calculate_md5(data: &str) -> (r: String)
        ensures
            r@ == body_md5(data@),
    {
        let bytes = utf8_bytes(data);
        let digest = md5_digest(bytes.as_slice());
        hex_encode(digest.as_slice())
    }

    /// The queue name in a queue URL or name.
    pub fn resolve_queue_name(&self, queue_identifier: &str) -> (r: String)
        ensures
            r@ == resolved_name(queue_identifier@),
    {
        let clean = trim_end_matches_char(queue_identifier, '/');
        let v = to_chars(clean.as_str());
        proof {
            crate::text::lemma_last_index_bound(v@, '/');
        }
        match rfind_char(&v, '/') {
            Some(pos) => chars_to_string(v.as_slice(), pos + 1, v.len()),
            None => clean,
        }
    }

    fn no_queue(wsdl: bool) -> (e: SqsError)
        ensures
            missing_queue(e),
    {
        let message = if wsdl {
            copy_str("The specified queue does not exist for this wsdl version.")
        } else {
            copy_str("The specified queue does not exist.")
        };
        SqsError { kind: SqsErrorKind::NonExistentQueue, message }
    }

    /// Takes the queue `name` out of the table.
    fn checkout(&mut self, name: &str) -> (r: Option<QueueState>)
        requires
            old(self).wf(),
        ensures
            final(self).wf(),
            final(self).account() == old(self).account(),
            final(self).home_region() == old(self).home_region(),
            match r {
                Some(q) => {
                    &&& old(self)@.contains_key(name@)
                    &&& q == old(self).queue(name@)
                    &&& q.wf()
                    &&& q@ == old(self)@[name@]
                    &&& final(self)@ == old(self)@.remove(name@)
                    &&& final(self).queues@ == old(self).queues@.remove(name@)
                },
                None => !old(self)@.contains_key(name@) && final(self)@ == old(self)@,
            },
    {
        let r = self.queues.remove(name);
        proof {
            lemma_map_values_remove(old(self).queues@, name@, |q: QueueState| q@);
            if old(self).queues@.contains_key(name@) {
                assert(old(self).queues@[name@].wf());
                assert(old(self)@.contains_key(name@));
                assert(old(self)@[name@] == old(self).queues@[name@]@);
            }
            assert forall|k: Seq<char>| #[trigger] self.queues@.contains_key(k) implies old(self).queues@.contains_key(k) by {}
        }
        r
    }

    /// Puts queue `q` back under its name.
    fn checkin(&mut self, q: QueueState)
        requires
            old(self).wf(),
            q.wf(),
            q.url@ == QueueState::queue_url(old(self).account(), q.name@),
            q.arn@ == QueueState::queue_arn(old(self).home_region(), old(self).account(), q.name@),
        ensures
            final(self).wf(),
            final(self)@ == old(self)@.insert(q.name@, q@),
            final(self).account() == old(self).account(),
            final(self).home_region() == old(self).home_region(),
            final(self).queue(q.name@) == q,
    {
        let ghost g = q;
        let name = q.name.clone();
        self.queues.insert(name, q);
        proof {
            lemma_map_values_insert(old(self).queues@, g.name@, g, |q: QueueState| q@);
        }
    }

    /// Creates a queue, or gives the URL of the one already under that name.
    pub fn create_queue(&mut self, name: &str, attributes: Option<Table<String>>) -> (r: Result<String, SqsError>)
        requires
            old(self).wf(),
            attributes matches Some(a) ==> a.wf(),
        ensures
            queue_created(*old(self), *final(self), name@, attributes, r),
    {
        let mut settings = QueueAttributes::default_settings();
        if ends_with(name, ".fifo") {
            settings.is_fifo = true;
        }
        let ghost base = settings@;
        match &attributes {
            Some(a) => settings.apply(a, true),
            None => {
                assert(configure(base, Map::empty(), true) == base);
            },
        }
        proof {
            self.lemma_wf();
        }
        match self.queues.get(name) {
            Some(q) => {
                return Ok(q.url.clone());
            },
            None => {},
        }
        let q = QueueState::new(copy_str(name), self.account_id.as_str(), self.region.as_str(), settings);
        let url = q.url.clone();
        self.checkin(q);
        Ok(url)
    }

    /// Deletes a queue.
    pub fn delete_queue(&mut self, queue_id: &str) -> (r: Result<(), SqsError>)
        requires
            old(self).wf(),
        ensures
            queue_deleted(*old(self), *final(self), queue_id@, r),
    {
        let name = self.resolve_queue_name(queue_id);
        match self.checkout(name.as_str()) {
            Some(_) => Ok(()),
            None => Err(Self::no_queue(true)),
        }
    }

    /// The URL of a queue.
    pub fn get_queue_url(&self, queue_name: &str) -> (r: Result<String, SqsError>)
        requires
            self.wf(),
        ensures
            self@.contains_key(resolved_name(queue_name@)) ==> (r matches Ok(u) && u@ == self@[resolved_name(queue_name@)].url),
            !self@.contains_key(resolved_name(queue_name@)) ==> (r matches Err(e) && missing_queue(e)),
    {
        let name = self.resolve_queue_name(queue_name);
        proof {
            self.lemma_wf();
        }
        match self.queues.get(name.as_str()) {
            Some(q) => Ok(q.url.clone()),
            None => Err(Self::no_queue(true)),
        }
    }

    /// The URLs of the queues whose name starts with `prefix` (all of them
    /// without one), in ascending order.
    pub fn list_queues(&self, prefix: Option<&str>) -> (r: Result<Vec<String>, SqsError>)
        requires
            self.wf(),
        ensures
            r matches Ok(v) && crate::text::views(v@) == listed_urls(
                self.queue_names(),
                self.account(),
                match prefix {
                    Some(p) => Some(p@),
                    None => None,
                },
            ),
    {
        let ghost pv: Option<Seq<char>> = match prefix {
            Some(p) => Some(p@),
            None => None,
        };
        let n = self.queues.len();
        proof {
            self.queues.lemma_wf();
        }
        let mut urls: Vec<String> = Vec::new();
        let mut i: usize = 0;
        while i < n
            invariant
                self.wf(),
                pv == (match prefix {
                    Some(p) => Some(p@),
                    None => None::<Seq<char>>,
                }),
                n == self.queues.keys().len(),
                i <= n,
                forall|j: int|
                    0 <= j < n ==> #[trigger] self.queues@.contains_key(self.queues.keys()[j])
                        && self.queues@[self.queues.keys()[j]] == self.queues.vals()[j],
                crate::text::views(urls@) == listed_urls(
                    self.queues.keys().subrange(0, i as int),
                    self.account_id@,
                    pv,
                ),
            decreases n - i,
        {
            let (k, q) = self.queues.entry(i);
            let ghost ks = self.queues.keys();
            proof {
                assert(ks.subrange(0, i + 1).drop_last() =~= ks.subrange(0, i as int));
                assert(ks.subrange(0, i + 1).last() == ks[i as int]);
                assert(self.queues@.contains_key(ks[i as int]));
                assert(q.name@ == ks[i as int]);
                assert(q.url@ == QueueState::queue_url(self.account_id@, ks[i as int]));
            }
            let keep = match prefix {
                Some(p) => starts_with(q.name.as_str(), p),
                None => true,
            };
            let ghost before = urls@;
            proof {
                assert(keep == (pv is None || is_prefix(pv.unwrap(), ks[i as int])));
                assert(listed_urls(ks.subrange(0, i + 1), self.account_id@, pv) == (if keep {
                    listed_urls(ks.subrange(0, i as int), self.account_id@, pv).push(q.url@)
                } else {
                    listed_urls(ks.subrange(0, i as int), self.account_id@, pv)
                }));
            }
            if keep {
                urls.push(q.url.clone());
                assert(crate::text::views(urls@) =~= crate::text::views(before).push(q.url@));
            }
            i = i + 1;
        }
        assert(self.queues.keys().subrange(0, n as int) =~= self.queues.keys());
        Ok(urls)
    }

    /// The URLs of the queues whose redrive policy names the given queue as
    /// their dead-letter queue, in name order.
    pub fn list_dead_letter_source_queues(&self, queue_id: &str) -> (r: Result<Vec<String>, SqsError>)
        requires
            self.wf(),
        ensures
            ({
                let name = resolved_name(queue_id@);
                &&& self@.contains_key(name) ==> (r matches Ok(v) && crate::text::views(v@) == dead_letter_sources(
                    self@,
                    self.queue_names(),
                    self@[name].arn,
                ))
                &&& !self@.contains_key(name) ==> (r matches Err(e) && missing_queue(e))
            }),
    {
        let name = self.resolve_queue_name(queue_id);
        proof {
            self.lemma_wf();
            self.queues.lemma_wf();
        }
        let arn = match self.queues.get(name.as_str()) {
            Some(q) => q.arn.clone(),
            None => {
                return Err(Self::no_queue(false));
            },
        };
        let n = self.queues.len();
        let mut urls: Vec<String> = Vec::new();
        let mut i: usize = 0;
        while i < n
            invariant
                self.wf(),
                n == self.queues.keys().len(),
                i <= n,
                forall|j: int|
                    0 <= j < n ==> #[trigger] self.queues@.contains_key(self.queues.keys()[j])
                        && self.queues@[self.queues.keys()[j]] == self.queues.vals()[j],
                crate::text::views(urls@) == dead_letter_sources(self@, self.queues.keys().subrange(0, i as int), arn@),
            decreases n - i,
        {
            let (k, q) = self.queues.entry(i);
            let ghost ks = self.queues.keys();
            proof {
                assert(ks.subrange(0, i + 1).drop_last() =~= ks.subrange(0, i as int));
                assert(ks.subrange(0, i + 1).last() == ks[i as int]);
                assert(self.queues@.contains_key(ks[i as int]));
                assert(self@[ks[i as int]] == q@);
            }
            let target = redrive_target_of(&q.attributes.redrive_policy);
            let keep = match &target {
                Some(t) => str_eq(t.as_str(), arn.as_str()),
                None => false,
            };
            let ghost before = urls@;
            if keep {
                urls.push(q.url.clone());
                assert(crate::text::views(urls@) =~= crate::text::views(before).push(q.url@));
            }
            i = i + 1;
        }
        assert(self.queues.keys().subrange(0, n as int) =~= self.queues.keys());
        Ok(urls)
    }

    /// Empties a queue.
    pub fn purge_queue(&mut self, queue_id: &str) -> (r: Result<(), SqsError>)
        requires
            old(self).wf(),
        ensures
            queue_purged(*old(self), *final(self), queue_id@, r),
    {
        let name = self.resolve_queue_name(queue_id);
        proof {
            self.lemma_wf();
        }
        match self.checkout(name.as_str()) {
            Some(mut q) => {
                q.purge();
                self.checkin(q);
                proof {
                    assert(old(self)@.remove(name@).insert(name@, final(self)@[name@]) =~= old(self)@.insert(
                        name@,
                        final(self)@[name@],
                    ));
                }
                Ok(())
            },
            None => Err(Self::no_queue(false)),
        }
    }

    /// The attributes asked for of a queue, with the messages whose visibility
    /// ran out by `now` put back first.
    pub fn get_queue_attributes_at(&mut self, queue_id: &str, attribute_names: &Vec<String>, now: i64) -> (r: Result<
        Table<String>,
        SqsError,
    >)
        requires
            old(self).wf(),
        ensures
            final(self).wf(),
            final(self).account() == old(self).account(),
            final(self).home_region() == old(self).home_region(),
            ({
                let name = resolved_name(queue_id@);
                &&& old(self)@.contains_key(name) ==> {
                    let q = old(self).queue(name).refreshed(now);
                    &&& final(self)@ == old(self)@.insert(name, q)
                    &&& r matches Ok(t) && t.wf() && texts(t) == attribute_map(q, crate::text::views(attribute_names@))
                }
                &&& !old(self)@.contains_key(name) ==> (r matches Err(e) && missing_queue(e) && final(self)@ == old(self)@)
            }),
    {
        let name = self.resolve_queue_name(queue_id);
        proof {
            self.lemma_wf();
        }
        let mut q = match self.checkout(name.as_str()) {
            Some(q) => q,
            None => {
                return Err(Self::no_queue(false));
            },
        };
        q.check_expired_in_flight(now);
        let ghost qv = q@;
        let t = attribute_table(&q, attribute_names);
        self.checkin(q);
        proof {
            assert(old(self)@.remove(name@).insert(name@, qv) =~= old(self)@.insert(name@, qv));
        }
        Ok(t)
    }

    /// The attributes asked for of a queue, now.
    pub fn get_queue_attributes(&mut self, queue_id: &str, attribute_names: &Vec<String>) -> (r: Result<
        Table<String>,
        SqsError,
    >)
        requires
            old(self).wf(),
        ensures
            attributes_read(*old(self), *final(self), queue_id@, r),
    {
        let now = now_millis();
        self.get_queue_attributes_at(queue_id, attribute_names, now)
    }

    /// Changes the settings of a queue.
    pub fn set_queue_attributes(&mut self, queue_id: &str, attributes: &Table<String>) -> (r: Result<(), SqsError>)
        requires
            old(self).wf(),
            attributes.wf(),
        ensures
            attributes_set(*old(self), *final(self), queue_id@, *attributes, r),
    {
        let name = self.resolve_queue_name(queue_id);
        proof {
            self.lemma_wf();
        }
        let mut q = match self.checkout(name.as_str()) {
            Some(q) => q,
            None => {
                return Err(Self::no_queue(false));
            },
        };
        q.attributes.last_modified_timestamp = now_seconds();
        q.attributes.apply(attributes, false);
        let ghost qv = q@;
        self.checkin(q);
        proof {
            assert(old(self)@.remove(name@).insert(name@, qv) =~= old(self)@.insert(name@, qv));
        }
        Ok(())
    }

    /// Sends a message with id `message_id` at `now`: gives the id, the body's
    /// digest and, for a FIFO queue, the sequence number.
    pub fn send_message_at(
        &mut self,
        queue_id: &str,
        body: String,
        delay_seconds: Option<u32>,
        message_attributes: Option<Table<MessageAttributeValue>>,
        message_group_id: Option<String>,
        message_deduplication_id: Option<String>,
        message_id: String,
        now: i64,
    ) -> (r: Result<(String, String, Option<String>), SqsError>)
        requires
            old(self).wf(),
            message_attributes matches Some(t) ==> t.wf(),
        ensures
            final(self).wf(),
            final(self).account() == old(self).account(),
            final(self).home_region() == old(self).home_region(),
            ({
                let name = resolved_name(queue_id@);
                &&& old(self)@.contains_key(name) ==> {
                    let q = old(self)@[name];
                    &&& r matches Ok((id, md5, seq)) && id@ == sent_id(q, body@, message_id@, opt_text(message_deduplication_id), now)
                        && md5@ == body_md5(body@) && opt_text(seq) == sequence_text(q)
                    &&& final(self)@ == old(self)@.insert(
                        name,
                        after_send(
                            q,
                            body@,
                            message_id@,
                            delay_seconds,
                            attr_views(message_attributes),
                            opt_text(message_group_id),
                            opt_text(message_deduplication_id),
                            now,
                        ),
                    )
                }
                &&& !old(self)@.contains_key(name) ==> (r matches Err(e) && missing_queue(e) && final(self)@ == old(self)@)
            }),
    {
        let name = self.resolve_queue_name(queue_id);
        proof {
            self.lemma_wf();
        }
        let mut q = match self.checkout(name.as_str()) {
            Some(q) => q,
            None => {
                return Err(Self::no_queue(false));
            },
        };
        let (id, md5, seq) = q.send(
            body,
            delay_seconds,
            message_attributes,
            message_group_id,
            message_deduplication_id,
            message_id,
            now,
        );
        let ghost qv = q@;
        self.checkin(q);
        proof {
            assert(old(self)@.remove(name@).insert(name@, qv) =~= old(self)@.insert(name@, qv));
        }
        Ok((id, md5, seq))
    }

    /// Sends a message now, under a fresh message id.
    pub fn send_message(
        &mut self,
        queue_id: &str,
        body: String,
        delay_seconds: Option<u32>,
        message_attributes: Option<Table<MessageAttributeValue>>,
        message_group_id: Option<String>,
        message_deduplication_id: Option<String>,
    ) -> (r: Result<(String, String, Option<String>), SqsError>)
        requires
            old(self).wf(),
            message_attributes matches Some(t) ==> t.wf(),
        ensures
            message_sent(*old(self), *final(self), queue_id@, body@, delay_seconds, message_attributes, message_group_id, message_deduplication_id, r),
    {
        let id = new_uuid();
        let now = now_millis();
        let ghost idv = id@;
        let r = self.send_message_at(
            queue_id,
            body,
            delay_seconds,
            message_attributes,
            message_group_id,
            message_deduplication_id,
            id,
            now,
        );
        proof {
            if old(self)@.contains_key(resolved_name(queue_id@)) {
                let q = old(self)@[resolved_name(queue_id@)];
                let _ = after_send(
                    q,
                    body@,
                    idv,
                    delay_seconds,
                    attr_views(message_attributes),
                    opt_text(message_group_id),
                    opt_text(message_deduplication_id),
                    now,
                );
            }
        }
        r
    }

    /// Sends a batch of messages at `now`, the `i`th under message id `ids[i]`.
    /// A batch sent to a queue that does not exist has no successes and no
    /// failures.
    pub fn send_message_batch_at(
        &mut self,
        queue_id: &str,
        entries: Vec<SendMessageBatchEntry>,
        ids: &Vec<String>,
        now: i64,
    ) -> (r: Result<(Vec<SendMessageBatchResultEntry>, Vec<BatchErrorEntry>), SqsError>)
        requires
            old(self).wf(),
            ids@.len() >= entries@.len(),
            forall|i: int| 0 <= i < entries@.len() ==> ((#[trigger] entries@[i]).message_attributes matches Some(t) ==> t.wf()),
        ensures
            final(self).wf(),
            final(self).account() == old(self).account(),
            final(self).home_region() == old(self).home_region(),
            r matches Ok((ok, failed)) && failed@.len() == 0 && ({
                let name = resolved_name(queue_id@);
                let idv = crate::text::views(ids@);
                &&& old(self)@.contains_key(name) ==> {
                    let q = old(self)@[name];
                    &&& ok@.len() == entries@.len()
                    &&& forall|i: int|
                        0 <= i < ok@.len() ==> {
                            &&& (#[trigger] ok@[i]).id@ == entries@[i].id@
                            &&& ok@[i].message_id@ == batch_sent_id(q, entries@, idv, now, i)
                            &&& ok@[i].md5_of_message_body@ == body_md5(entries@[i].message_body@)
                            &&& opt_text(ok@[i].sequence_number) == sequence_text(
                                after_batch(q, entries@.take(i), idv, now),
                            )
                        }
                    &&& final(self)@ == old(self)@.insert(name, after_batch(q, entries@, idv, now))
                }
                &&& !old(self)@.contains_key(name) ==> ok@.len() == 0 && final(self)@ == old(self)@
            }),
    {
        let name = self.resolve_queue_name(queue_id);
        proof {
            self.lemma_wf();
        }
        let mut ok: Vec<SendMessageBatchResultEntry> = Vec::new();
        let failed: Vec<BatchErrorEntry> = Vec::new();
        let mut q = match self.checkout(name.as_str()) {
            Some(q) => q,
            None => {
                return Ok((ok, failed));
            },
        };
        let ghost q0 = q@;
        let ghost idv = crate::text::views(ids@);
        let mut i: usize = 0;
        assert(entries@.take(0) =~= Seq::<SendMessageBatchEntry>::empty());
        while i < entries.len()
            invariant
                q.wf(),
                i <= entries@.len(),
                ids@.len() >= entries@.len(),
                idv == crate::text::views(ids@),
                forall|j: int| 0 <= j < entries@.len() ==> ((#[trigger] entries@[j]).message_attributes matches Some(t) ==> t.wf()),
                q@ == after_batch(q0, entries@.take(i as int), idv, now),
                q.name@ == name@,
                q.url@ == q0.url,
                q.arn@ == q0.arn,
                ok@.len() == i,
                forall|j: int|
                    0 <= j < i ==> {
                        &&& (#[trigger] ok@[j]).id@ == entries@[j].id@
                        &&& ok@[j].message_id@ == batch_sent_id(q0, entries@, idv, now, j)
                        &&& ok@[j].md5_of_message_body@ == body_md5(entries@[j].message_body@)
                        &&& opt_text(ok@[j].sequence_number) == sequence_text(
                            after_batch(q0, entries@.take(j), idv, now),
                        )
                    },
            decreases entries@.len() - i,
        {
            let e = &entries[i];
            let attrs = match &e.message_attributes {
                Some(t) => Some(copy_attr_table(t)),
                None => None,
            };
            assert(attr_views(attrs) == attr_views(e.message_attributes));
            let ghost qb = q@;
            let (sid, md5, seq) = q.send(
                e.message_body.clone(),
                e.delay_seconds,
                attrs,
                copy_opt(&e.message_group_id),
                copy_opt(&e.message_deduplication_id),
                ids[i].clone(),
                now,
            );
            proof {
                assert(entries@.take(i + 1).drop_last() =~= entries@.take(i as int));
                assert(entries@.take(i + 1).last() == entries@[i as int]);
                assert(idv[i as int] == ids@[i as int]@);
            }
            let ghost before = ok@;
            assert(sid@ == batch_sent_id(q0, entries@, idv, now, i as int));
            ok.push(SendMessageBatchResultEntry {
                id: e.id.clone(),
                message_id: sid,
                md5_of_message_body: md5,
                sequence_number: seq,
            });
            proof {
                assert forall|j: int| 0 <= j < i + 1 implies {
                    &&& (#[trigger] ok@[j]).id@ == entries@[j].id@
                    &&& ok@[j].message_id@ == batch_sent_id(q0, entries@, idv, now, j)
                    &&& ok@[j].md5_of_message_body@ == body_md5(entries@[j].message_body@)
                    &&& opt_text(ok@[j].sequence_number) == sequence_text(after_batch(q0, entries@.take(j), idv, now))
                } by {
                    if j < i {
                        assert(ok@[j] == before[j]);
                    }
                }
            }
            i = i + 1;
        }
        assert(entries@.take(entries@.len() as int) =~= entries@);
        let ghost qv = q@;
        self.checkin(q);
        proof {
            assert(old(self)@.remove(name@).insert(name@, qv) =~= old(self)@.insert(name@, qv));
        }
        Ok((ok, failed))
    }

    /// Sends a batch of messages now, each under a fresh message id.
    pub fn send_message_batch(&mut self, queue_id: &str, entries: Vec<SendMessageBatchEntry>) -> (r: Result<
        (Vec<SendMessageBatchResultEntry>, Vec<BatchErrorEntry>),
        SqsError,
    >)
        requires
            old(self).wf(),
            forall|i: int| 0 <= i < entries@.len() ==> ((#[trigger] entries@[i]).message_attributes matches Some(t) ==> t.wf()),
        ensures
            batch_sent(*old(self), *final(self), queue_id@, entries@, r),
    {
        let mut ids: Vec<String> = Vec::new();
        let mut i: usize = 0;
        while i < entries.len()
            invariant
                i <= entries@.len(),
                ids@.len() == i,
                forall|j: int| 0 <= j < i ==> (#[trigger] ids@[j])@.len() == 36,
            decreases entries@.len() - i,
        {
            ids.push(new_uuid());
            i = i + 1;
        }
        let now = now_millis();
        let ghost idv = crate::text::views(ids@);
        let ghost ents = entries@;
        let r = self.send_message_batch_at(queue_id, entries, &ids, now);
        proof {
            let name = resolved_name(queue_id@);
            if old(self)@.contains_key(name) {
                assert forall|j: int| 0 <= j < ents.len() implies (#[trigger] idv[j]).len() == 36 by {
                    assert(idv[j] == ids@[j]@);
                }
                let _ = after_batch(old(self)@[name], ents, idv, now);
            }
        }
        r
    }

    /// Receives up to `max_number_of_messages` messages (between 1 and 10) at
    /// `now`, after putting back the messages whose visibility ran out. Waiting
    /// for messages to arrive is left to the caller.
    pub fn receive_message_at(
        &mut self,
        queue_id: &str,
        max_number_of_messages: u32,
        visibility_timeout_opt: Option<u32>,
        now: i64,
    ) -> (r: Result<Vec<SqsMessage>, SqsError>)
        requires
            old(self).wf(),
        ensures
            final(self).wf(),
            final(self).account() == old(self).account(),
            final(self).home_region() == old(self).home_region(),
            ({
                let name = resolved_name(queue_id@);
                &&& old(self)@.contains_key(name) ==> {
                    let q = redriven(old(self)@, old(self).queue(name).refreshed(now));
                    &&& r matches Ok(rs) && receipts(q.0, max_number_of_messages, visibility_timeout_opt, now, rs@)
                    &&& final(self)@ == q.1.insert(name, after_receive(q.0, max_number_of_messages, r->Ok_0@))
                }
                &&& !old(self)@.contains_key(name) ==> (r matches Err(e) && missing_queue(e) && final(self)@ == old(self)@)
            }),
    {
        let name = self.resolve_queue_name(queue_id);
        proof {
            self.lemma_wf();
        }
        let mut q = match self.checkout(name.as_str()) {
            Some(q) => q,
            None => {
                return Err(Self::no_queue(false));
            },
        };
        q.check_expired_in_flight(now);
        let ghost qr = q@;
        let ghost rd = redriven(old(self)@, qr);
        let limit = redrive_limit_exec(&q.attributes.redrive_policy);
        let target = redrive_target_of(&q.attributes.redrive_policy);
        match (target, limit) {
            (Some(arn), Some(l)) => {
                let parts = split_char(arn.as_str(), ':');
                proof {
                    lemma_split_on_nonempty(arn@, ':');
                }
                let np = parts.len();
                assert(views(parts@)[np - 1] == parts@[np - 1]@);
                let dn = parts[np - 1].clone();
                assert(dn@ == arn_queue_name(arn@));
                if !str_eq(dn.as_str(), name.as_str()) {
                    let ghost s1 = *self;
                    match self.checkout(dn.as_str()) {
                        Some(mut d) => {
                            if str_eq(d.arn.as_str(), arn.as_str()) {
                                let poison = q.take_poisoned(l);
                                d.append_messages(poison);
                                assert(dead_letter_name(old(self)@, qr) == Some(dn@));
                            } else {
                                assert(dead_letter_name(old(self)@, qr) is None);
                            }
                            proof {
                                s1.lemma_wf();
                            }
                            self.checkin(d);
                        },
                        None => {
                            assert(dead_letter_name(old(self)@, qr) is None);
                        },
                    }
                } else {
                    assert(dead_letter_name(old(self)@, qr) is None);
                }
            },
            _ => {
                assert(dead_letter_name(old(self)@, qr) is None);
            },
        }
        assert(q@ == rd.0);
        assert(self@ =~= rd.1.remove(name@));
        let rs = q.receive_waiting(max_number_of_messages, visibility_timeout_opt, now);
        let ghost qv = q@;
        self.checkin(q);
        proof {
            assert(rd.1.remove(name@).insert(name@, qv) =~= rd.1.insert(name@, qv));
        }
        Ok(rs)
    }

    /// Receives up to `max_number_of_messages` messages now.
    pub fn receive_message(
        &mut self,
        queue_id: &str,
        max_number_of_messages: u32,
        visibility_timeout_opt: Option<u32>,
    ) -> (r: Result<Vec<SqsMessage>, SqsError>)
        requires
            old(self).wf(),
        ensures
            messages_received(*old(self), *final(self), queue_id@, max_number_of_messages, visibility_timeout_opt, r),
    {
        let now = now_millis();
        self.receive_message_at(queue_id, max_number_of_messages, visibility_timeout_opt, now)
    }

    /// How long a receive may wait for messages: the time asked for, or the
    /// queue's setting.
    pub fn wait_time(&self, queue_id: &str, wait_time_seconds_opt: Option<u32>) -> (r: Result<u32, SqsError>)
        requires
            self.wf(),
        ensures
            ({
                let name = resolved_name(queue_id@);
                &&& self@.contains_key(name) ==> r == Ok::<u32, SqsError>(
                    match wait_time_seconds_opt {
                        Some(w) => w,
                        None => self@[name].attributes.receive_wait_time_seconds,
                    },
                )
                &&& !self@.contains_key(name) ==> (r matches Err(e) && missing_queue(e))
            }),
    {
        let name = self.resolve_queue_name(queue_id);
        proof {
            self.lemma_wf();
        }
        match self.queues.get(name.as_str()) {
            Some(q) => Ok(
                match wait_time_seconds_opt {
                    Some(w) => w,
                    None => q.attributes.receive_wait_time_seconds,
                },
            ),
            None => Err(Self::no_queue(false)),
        }
    }

    /// Deletes the message in flight under `receipt_handle`; an unknown handle
    /// is no error.
    pub fn delete_message(&mut self, queue_id: &str, receipt_handle: &str) -> (r: Result<(), SqsError>)
        requires
            old(self).wf(),
        ensures
            message_deleted(*old(self), *final(self), queue_id@, receipt_handle@, r),
    {
        let name = self.resolve_queue_name(queue_id);
        proof {
            self.lemma_wf();
        }
        let mut q = match self.checkout(name.as_str()) {
            Some(q) => q,
            None => {
                return Err(Self::no_queue(false));
            },
        };
        q.forget(receipt_handle);
        let ghost qv = q@;
        self.checkin(q);
        proof {
            assert(old(self)@.remove(name@).insert(name@, qv) =~= old(self)@.insert(name@, qv));
        }
        Ok(())
    }

    /// Deletes the messages in flight under the handles of a batch; every entry
    /// succeeds.
    pub fn delete_message_batch(&mut self, queue_id: &str, entries: Vec<DeleteMessageBatchEntry>) -> (r: Result<
        (Vec<String>, Vec<BatchErrorEntry>),
        SqsError,
    >)
        requires
            old(self).wf(),
        ensures
            batch_deleted(*old(self), *final(self), queue_id@, entries@, r),
    {
        let name = self.resolve_queue_name(queue_id);
        proof {
            self.lemma_wf();
        }
        let mut q = match self.checkout(name.as_str()) {
            Some(q) => q,
            None => {
                return Err(Self::no_queue(false));
            },
        };
        let ghost q0 = q@;
        let mut ok: Vec<String> = Vec::new();
        let failed: Vec<BatchErrorEntry> = Vec::new();
        let mut i: usize = 0;
        while i < entries.len()
            invariant
                q.wf(),
                i <= entries@.len(),
                q@ == with_messages(q0, q0.messages, dropped(q0.in_flight, delete_handles(entries@.take(i as int)))),
                q.name@ == name@,
                q.url@ == q0.url,
                q.arn@ == q0.arn,
                ok@.len() == i,
                crate::text::views(ok@) == entries@.take(i as int).map_values(|e: DeleteMessageBatchEntry| e.id@),
            decreases entries@.len() - i,
        {
            q.forget(entries[i].receipt_handle.as_str());
            let ghost before = ok@;
            ok.push(entries[i].id.clone());
            proof {
                assert forall|j: int| 0 <= j < i + 1 implies #[trigger] crate::text::views(ok@)[j] == entries@[j].id@ by {
                    if j < i {
                        assert(ok@[j] == before[j]);
                        assert(crate::text::views(before)[j] == entries@.take(i as int).map_values(
                            |e: DeleteMessageBatchEntry| e.id@,
                        )[j]);
                    }
                }
                assert(entries@.take(i + 1).drop_last() =~= entries@.take(i as int));
                assert(delete_handles(entries@.take(i + 1)).drop_last() =~= delete_handles(entries@.take(i as int)));
                assert(delete_handles(entries@.take(i + 1)).last() == entries@[i as int].receipt_handle@);
                assert(crate::text::views(ok@) =~= entries@.take(i + 1).map_values(|e: DeleteMessageBatchEntry| e.id@));
            }
            i = i + 1;
        }
        assert(entries@.take(entries@.len() as int) =~= entries@);
        let ghost qv = q@;
        self.checkin(q);
        proof {
            assert(old(self)@.remove(name@).insert(name@, qv) =~= old(self)@.insert(name@, qv));
        }
        Ok((ok, failed))
    }

    /// Keeps the message in flight under `receipt_handle` invisible until
    /// `visibility_timeout` seconds after `now`; an unknown handle is no error.
    pub fn change_message_visibility_at(
        &mut self,
        queue_id: &str,
        receipt_handle: &str,
        visibility_timeout: u32,
        now: i64,
    ) -> (r: Result<(), SqsError>)
        requires
            old(self).wf(),
        ensures
            final(self).wf(),
            final(self).account() == old(self).account(),
            final(self).home_region() == old(self).home_region(),
            ({
                let name = resolved_name(queue_id@);
                &&& old(self)@.contains_key(name) ==> {
                    let q = old(self)@[name];
                    &&& r is Ok
                    &&& final(self)@ == old(self)@.insert(
                        name,
                        with_messages(q, q.messages, retimed(q.in_flight, receipt_handle@, visibility_timeout, now)),
                    )
                }
                &&& !old(self)@.contains_key(name) ==> (r matches Err(e) && missing_queue(e) && final(self)@ == old(self)@)
            }),
    {
        let name = self.resolve_queue_name(queue_id);
        proof {
            self.lemma_wf();
        }
        let mut q = match self.checkout(name.as_str()) {
            Some(q) => q,
            None => {
                return Err(Self::no_queue(false));
            },
        };
        q.retime(receipt_handle, visibility_timeout, now);
        let ghost qv = q@;
        self.checkin(q);
        proof {
            assert(old(self)@.remove(name@).insert(name@, qv) =~= old(self)@.insert(name@, qv));
        }
        Ok(())
    }

    /// Changes the visibility of a message in flight, counting from now.
    pub fn change_message_visibility(&mut self, queue_id: &str, receipt_handle: &str, visibility_timeout: u32) -> (r:
        Result<(), SqsError>)
        requires
            old(self).wf(),
        ensures
            visibility_changed(*old(self), *final(self), queue_id@, r),
    {
        let now = now_millis();
        self.change_message_visibility_at(queue_id, receipt_handle, visibility_timeout, now)
    }

    /// Changes the visibility of the messages of a batch at `now`; every entry
    /// succeeds.
    pub fn change_message_visibility_batch_at(
        &mut self,
        queue_id: &str,
        entries: Vec<ChangeMessageVisibilityBatchEntry>,
        now: i64,
    ) -> (r: Result<(Vec<String>, Vec<BatchErrorEntry>), SqsError>)
        requires
            old(self).wf(),
        ensures
            final(self).wf(),
            final(self).account() == old(self).account(),
            final(self).home_region() == old(self).home_region(),
            ({
                let name = resolved_name(queue_id@);
                &&& old(self)@.contains_key(name) ==> {
                    let q = old(self)@[name];
                    &&& r matches Ok((ok, failed)) && failed@.len() == 0 && crate::text::views(ok@) == entries@.map_values(
                        |e: ChangeMessageVisibilityBatchEntry| e.id@,
                    )
                    &&& final(self)@ == old(self)@.insert(
                        name,
                        with_messages(q, q.messages, retimed_all(q.in_flight, entries@, now)),
                    )
                }
                &&& !old(self)@.contains_key(name) ==> (r matches Err(e) && missing_queue(e) && final(self)@ == old(self)@)
            }),
    {
        let name = self.resolve_queue_name(queue_id);
        proof {
            self.lemma_wf();
        }
        let mut q = match self.checkout(name.as_str()) {
            Some(q) => q,
            None => {
                return Err(Self::no_queue(false));
            },
        };
        let ghost q0 = q@;
        let mut ok: Vec<String> = Vec::new();
        let failed: Vec<BatchErrorEntry> = Vec::new();
        let mut i: usize = 0;
        while i < entries.len()
            invariant
                q.wf(),
                i <= entries@.len(),
                q@ == with_messages(q0, q0.messages, retimed_all(q0.in_flight, entries@.take(i as int), now)),
                q.name@ == name@,
                q.url@ == q0.url,
                q.arn@ == q0.arn,
                ok@.len() == i,
                crate::text::views(ok@) == entries@.take(i as int).map_values(|e: ChangeMessageVisibilityBatchEntry| e.id@),
            decreases entries@.len() - i,
        {
            q.retime(entries[i].receipt_handle.as_str(), entries[i].visibility_timeout, now);
            let ghost before = ok@;
            ok.push(entries[i].id.clone());
            proof {
                assert forall|j: int| 0 <= j < i + 1 implies #[trigger] crate::text::views(ok@)[j] == entries@[j].id@ by {
                    if j < i {
                        assert(ok@[j] == before[j]);
                        assert(crate::text::views(before)[j] == entries@.take(i as int).map_values(
                            |e: ChangeMessageVisibilityBatchEntry| e.id@,
                        )[j]);
                    }
                }
                assert(entries@.take(i + 1).drop_last() =~= entries@.take(i as int));
                assert(entries@.take(i + 1).last() == entries@[i as int]);
                assert(crate::text::views(ok@) =~= entries@.take(i + 1).map_values(
                    |e: ChangeMessageVisibilityBatchEntry| e.id@,
                ));
            }
            i = i + 1;
        }
        assert(entries@.take(entries@.len() as int) =~= entries@);
        let ghost qv = q@;
        self.checkin(q);
        proof {
            assert(old(self)@.remove(name@).insert(name@, qv) =~= old(self)@.insert(name@, qv));
        }
        Ok((ok, failed))
    }

    /// Changes the visibility of the messages of a batch, counting from now.
    pub fn change_message_visibility_batch(&mut self, queue_id: &str, entries: Vec<ChangeMessageVisibilityBatchEntry>) -> (r:
        Result<(Vec<String>, Vec<BatchErrorEntry>), SqsError>)
        requires
            old(self).wf(),
        ensures
            final(self).wf(),
            final(self).account() == old(self).account(),
            final(self).home_region() == old(self).home_region(),
            old(self)@.contains_key(resolved_name(queue_id@)) <==> r is Ok,
            r matches Ok((ok, failed)) ==> failed@.len() == 0 && crate::text::views(ok@) == entries@.map_values(
                |e: ChangeMessageVisibilityBatchEntry| e.id@,
            ),
            r matches Err(e) ==> missing_queue(e) && final(self)@ == old(self)@,
    {
        let now = now_millis();
        self.change_message_visibility_batch_at(queue_id, entries, now)
    }
}


/// A message whose visibility ran out is among the messages a refresh puts back.
proof fn lemma_expired_contains(keys: Seq<Seq<char>>, m: Map<Seq<char>, MessageView>, now: i64, k: Seq<char>)
    requires
        keys.contains(k),
        m[k].visible_at <= now,
    ensures
        expired_messages(keys, m, now).contains(m[k]),
    decreases keys.len(),
{
    let i = choose|i: int| 0 <= i < keys.len() && keys[i] == k;
    if i == keys.len() - 1 {
        let e = expired_messages(keys, m, now);
        assert(e.last() == m[k]);
    } else {
        assert(keys.drop_last()[i] == k);
        lemma_expired_contains(keys.drop_last(), m, now, k);
        let prev = expired_messages(keys.drop_last(), m, now);
        let j = choose|j: int| 0 <= j < prev.len() && prev[j] == m[k];
        let e = expired_messages(keys, m, now);
        assert(e[j] == m[k]);
    }
}

/// A message sent to a standard queue with nothing waiting and nothing in
/// flight is the one message the next receive gives: with the body, id and
/// digest it was sent with, received for the first time.
pub proof fn law_sent_message_is_received(
    q0: QueueState,
    q1: QueueState,
    body: Seq<char>,
    id: Seq<char>,
    delay: Option<u32>,
    attrs: Map<Seq<char>, AttrView>,
    group: Option<Seq<char>>,
    dedup: Option<Seq<char>>,
    sent_at: i64,
    now: i64,
    max: u32,
    vt_opt: Option<u32>,
    rs: Seq<SqsMessage>,
)
    requires
        q1.wf(),
        !q0@.attributes.is_fifo,
        q0@.messages.len() == 0,
        q0@.in_flight == Map::<Seq<char>, MessageView>::empty(),
        q1@ == after_send(q0@, body, id, delay, attrs, group, dedup, sent_at),
        receipts(q1.refreshed(now), max, vt_opt, now, rs),
    ensures
        rs.len() == 1,
        rs[0]@.body == body,
        rs[0]@.message_id == id,
        rs[0]@.md5_of_body == body_md5(body),
        rs[0]@.receive_count == 1,
{
    q1.in_flight.lemma_wf();
    assert(q1@.in_flight.dom().len() == 0);
    assert(q1.in_flight.keys().len() == 0);
    let q = q1.refreshed(now);
    assert(expired_messages(q1.in_flight.keys(), q1@.in_flight, now) =~= Seq::<MessageView>::empty());
    assert(q.messages =~= q1@.messages);
    assert(q.messages.len() == 1);
}

/// Two messages sent to a FIFO queue under one deduplication id, less than
/// five minutes apart, are stored once: the second send stores nothing.
pub proof fn law_fifo_duplicate_dropped(
    q: QueueView,
    body1: Seq<char>,
    id1: Seq<char>,
    body2: Seq<char>,
    id2: Seq<char>,
    d: Seq<char>,
    delay1: Option<u32>,
    delay2: Option<u32>,
    attrs1: Map<Seq<char>, AttrView>,
    attrs2: Map<Seq<char>, AttrView>,
    group1: Option<Seq<char>>,
    group2: Option<Seq<char>>,
    t1: i64,
    t2: i64,
)
    requires
        q.attributes.is_fifo,
        !recent(q.dedup, t1).contains_key(d),
        t1 <= t2 < t1 + 300000,
    ensures
        ({
            let q1 = after_send(q, body1, id1, delay1, attrs1, group1, Some(d), t1);
            let q2 = after_send(q1, body2, id2, delay2, attrs2, group2, Some(d), t2);
            &&& q1.messages.len() == q.messages.len() + 1
            &&& q2.messages == q1.messages
        }),
{
    let q1 = after_send(q, body1, id1, delay1, attrs1, group1, Some(d), t1);
    assert(q1.dedup.contains_key(d) && q1.dedup[d] == t1);
    assert(recent(q1.dedup, t2).contains_key(d));
}

/// Under content-based deduplication, the same body sent twice to a FIFO
/// queue without a deduplication id, less than five minutes apart, is stored
/// once, whatever message ids the two sends are given; the second send reports
/// the first message's id.
pub proof fn law_fifo_content_duplicate_dropped(
    q: QueueView,
    body: Seq<char>,
    id1: Seq<char>,
    id2: Seq<char>,
    delay1: Option<u32>,
    delay2: Option<u32>,
    attrs1: Map<Seq<char>, AttrView>,
    attrs2: Map<Seq<char>, AttrView>,
    group1: Option<Seq<char>>,
    group2: Option<Seq<char>>,
    t1: i64,
    t2: i64,
)
    requires
        q.attributes.is_fifo,
        q.attributes.content_based_deduplication,
        q.dedup == Map::<Seq<char>, i64>::empty(),
        t1 <= t2 < t1 + 300000,
    ensures
        ({
            let q1 = after_send(q, body, id1, delay1, attrs1, group1, None, t1);
            let q2 = after_send(q1, body, id2, delay2, attrs2, group2, None, t2);
            &&& q1.messages.len() == q.messages.len() + 1
            &&& q1.messages.last().message_id == id1
            &&& q2.messages == q1.messages
            &&& sent_id(q1, body, id2, None, t2) == id1
        }),
{
    let k = body_md5(body);
    let q1 = after_send(q, body, id1, delay1, attrs1, group1, None, t1);
    assert(!recent(q.dedup, t1).contains_key(k));
    assert(q1.dedup.contains_key(k) && q1.dedup[k] == t1);
    assert(recent(q1.dedup, t2).contains_key(k));
    assert(q1.dedup_ids.contains_key(k) && q1.dedup_ids[k] == id1);
}

/// A receive takes the first waiting messages, in order, and leaves the rest
/// waiting: none is lost and none is added.
pub proof fn law_receive_takes_from_front(q: QueueView, max: u32, vt_opt: Option<u32>, now: i64, rs: Seq<SqsMessage>)
    requires
        receipts(q, max, vt_opt, now, rs),
    ensures
        after_receive(q, max, rs).messages.len() + rs.len() == q.messages.len(),
        forall|i: int| 0 <= i < rs.len() ==> (#[trigger] rs[i])@.body == q.messages[i].body,
        forall|i: int| 0 <= i < rs.len() ==> (#[trigger] rs[i])@.message_id == q.messages[i].message_id,
{
}

/// A message received and not deleted before its visibility timeout ran out
/// is waiting again after a refresh, and no longer in flight.
pub proof fn law_expired_message_returns(q: QueueState, handle: Seq<char>, now: i64)
    requires
        q.wf(),
        q@.in_flight.contains_key(handle),
        q@.in_flight[handle].visible_at <= now,
    ensures
        q.refreshed(now).messages.contains(q@.in_flight[handle]),
        !q.refreshed(now).in_flight.contains_key(handle),
{
    q.in_flight.lemma_wf();
    let i = choose|i: int| 0 <= i < q.in_flight.keys().len() && q.in_flight.keys()[i] == handle;
    assert(q.in_flight.keys().contains(handle));
    lemma_expired_contains(q.in_flight.keys(), q@.in_flight, now, handle);
    let e = expired_messages(q.in_flight.keys(), q@.in_flight, now);
    let j = choose|j: int| 0 <= j < e.len() && e[j] == q@.in_flight[handle];
    assert(q.refreshed(now).messages[j] == q@.in_flight[handle]);
}

/// A deleted message is no longer in flight, and the waiting messages stay as
/// they were.
pub proof fn law_deleted_message_gone(q: QueueView, handle: Seq<char>)
    ensures
        !with_messages(q, q.messages, q.in_flight.remove(handle)).in_flight.contains_key(handle),
        with_messages(q, q.messages, q.in_flight.remove(handle)).messages == q.messages,
{
}

} // verus!
