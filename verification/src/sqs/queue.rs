//! The queues: waiting messages in order, messages in flight by receipt
//! handle, and the FIFO deduplication window. Times are passed in, in
//! milliseconds since the Unix epoch.
use vstd::prelude::*;
use crate::runtime::{hex_encode, hex_lower, md5_digest, md5_of, new_uuid, now_millis, now_seconds, utf8_bytes};
use crate::ses::state::{copy_opt, opt_text};
use crate::sqs::types::{
    AttrView, BatchErrorEntry, ChangeMessageVisibilityBatchEntry, DeleteMessageBatchEntry, MessageAttributeValue,
    MessageView, QueueAttributes, SendMessageBatchEntry, SendMessageBatchResultEntry, SqsMessage,
};
use crate::table::{lemma_map_values_insert, lemma_map_values_remove, Table};
use crate::text::{
    append, append_i64, append_u64, chars_to_string, decimal, ends_with, eq_ignore_ascii_case, eq_ignore_case,
    is_suffix, last_index_of, parse_u64_spec, parse_u64, rfind_char, signed_decimal, starts_with, str_eq, to_chars,
    trim_end_char, trim_end_matches_char, u64_to_string, views,
};

verus! {

/// Why a queue request failed.
#[derive(Debug, Clone, Copy, PartialEq, Eq)]
pub enum SqsErrorKind {
    NonExistentQueue,
    InvalidAction,
    MissingParameter,
    BadRequest,
}

/// A failed queue request: the reason and a message.
#[derive(Debug)]
pub struct SqsError {
    pub kind: SqsErrorKind,
    pub message: String,
}

impl SqsErrorKind {
    /// The error code, as text.
    pub open spec fn code_spec(&self) -> Seq<char> {
        match self {
            SqsErrorKind::NonExistentQueue => "AWS.SimpleQueueService.NonExistentQueue"@,
            SqsErrorKind::InvalidAction => "InvalidAction"@,
            SqsErrorKind::MissingParameter => "MissingParameter"@,
            SqsErrorKind::BadRequest => "BadRequest"@,
        }
    }

    /// The error code.
    pub fn code(&self) -> (r: &'static str)
        ensures
            r@ == self.code_spec(),
    {
        match self {
            SqsErrorKind::NonExistentQueue => "AWS.SimpleQueueService.NonExistentQueue",
            SqsErrorKind::InvalidAction => "InvalidAction",
            SqsErrorKind::MissingParameter => "MissingParameter",
            SqsErrorKind::BadRequest => "BadRequest",
        }
    }

    /// The HTTP status: 404 for a missing queue, 400 otherwise.
    pub open spec fn status_spec(&self) -> u16 {
        if *self == SqsErrorKind::NonExistentQueue { 404u16 } else { 400u16 }
    }

    /// The HTTP status.
    pub fn status(&self) -> (r: u16)
        ensures
            r == self.status_spec(),
    {
        match self {
            SqsErrorKind::NonExistentQueue => 404,
            _ => 400,
        }
    }
}

/// The settings of a queue as text.
pub struct SettingsView {
    pub visibility_timeout: u32,
    pub delay_seconds: u32,
    pub receive_wait_time_seconds: u32,
    pub max_message_size: u32,
    pub message_retention_period: u32,
    pub is_fifo: bool,
    pub content_based_deduplication: bool,
    pub redrive_policy: Option<Seq<char>>,
    pub created_timestamp: i64,
    pub last_modified_timestamp: i64,
}

impl QueueAttributes {
    pub open spec fn view(&self) -> SettingsView {
        SettingsView {
            visibility_timeout: self.visibility_timeout,
            delay_seconds: self.delay_seconds,
            receive_wait_time_seconds: self.receive_wait_time_seconds,
            max_message_size: self.max_message_size,
            message_retention_period: self.message_retention_period,
            is_fifo: self.is_fifo,
            content_based_deduplication: self.content_based_deduplication,
            redrive_policy: opt_text(self.redrive_policy),
            created_timestamp: self.created_timestamp,
            last_modified_timestamp: self.last_modified_timestamp,
        }
    }

    /// The default settings, created at `now` (seconds).
    pub open spec fn defaults(now: i64) -> SettingsView {
        SettingsView {
            visibility_timeout: 30,
            delay_seconds: 0,
            receive_wait_time_seconds: 0,
            max_message_size: 262144,
            message_retention_period: 345600,
            is_fifo: false,
            content_based_deduplication: false,
            redrive_policy: None,
            created_timestamp: now,
            last_modified_timestamp: now,
        }
    }

    /// The default settings, created now.
    pub fn default_settings() -> (r: Self)
        ensures
            r@ == QueueAttributes::defaults(r.created_timestamp),
    {
        let now = now_seconds();
        QueueAttributes {
            visibility_timeout: 30,
            delay_seconds: 0,
            receive_wait_time_seconds: 0,
            max_message_size: 262144,
            message_retention_period: 345600,
            is_fifo: false,
            content_based_deduplication: false,
            redrive_policy: None,
            created_timestamp: now,
            last_modified_timestamp: now,
        }
    }
}

/// A copy of a table of strings.
pub fn copy_string_table(t: &Table<String>) -> (r: Table<String>)
    requires
        t.wf(),
    ensures
        r.wf(),
        r@.map_values(|v: String| v@) == t@.map_values(|v: String| v@),
{
    let n = t.len();
    proof { t.lemma_wf(); }
    let mut r: Table<String> = Table::new();
    let mut i: usize = 0;
    while i < n
        invariant
            t.wf(),
            r.wf(),
            n == t.keys().len(),
            i <= n,
            forall|j: int| 0 <= j < n ==> #[trigger] t@.contains_key(t.keys()[j]) && t@[t.keys()[j]] == t.vals()[j],
            forall|k: Seq<char>| #[trigger] t@.contains_key(k) ==> exists|j: int| 0 <= j < n && t.keys()[j] == k,
            r@.dom() == t.keys().subrange(0, i as int).to_set(),
            forall|k: Seq<char>| #[trigger] r@.contains_key(k) ==> t@.contains_key(k) && r@[k]@ == t@[k]@,
        decreases n - i,
    {
        let (k, v) = t.entry(i);
        r.insert(k.clone(), v.clone());
        proof {
            let ks = t.keys();
            assert(ks.subrange(0, i + 1) =~= ks.subrange(0, i as int).push(ks[i as int]));
            ks.subrange(0, i as int).lemma_push_to_set_commute(ks[i as int]);
        }
        i = i + 1;
        assert(r@.dom() =~= t.keys().subrange(0, i as int).to_set());
    }
    proof {
        assert(t.keys().subrange(0, n as int) =~= t.keys());
        assert forall|k: Seq<char>| #[trigger] t@.contains_key(k) implies r@.contains_key(k) by {
            let j = choose|j: int| 0 <= j < n && t.keys()[j] == k;
            assert(t.keys().to_set().contains(t.keys()[j]));
        }
        assert(r@.map_values(|v: String| v@) =~= t@.map_values(|v: String| v@));
    }
    r
}

/// A copy of a table of message attributes.
pub fn copy_attr_table(t: &Table<MessageAttributeValue>) -> (r: Table<MessageAttributeValue>)
    requires
        t.wf(),
    ensures
        r.wf(),
        r@.map_values(|a: MessageAttributeValue| a@) == t@.map_values(|a: MessageAttributeValue| a@),
{
    let n = t.len();
    proof { t.lemma_wf(); }
    let mut r: Table<MessageAttributeValue> = Table::new();
    let mut i: usize = 0;
    while i < n
        invariant
            t.wf(),
            r.wf(),
            n == t.keys().len(),
            i <= n,
            forall|j: int| 0 <= j < n ==> #[trigger] t@.contains_key(t.keys()[j]) && t@[t.keys()[j]] == t.vals()[j],
            forall|k: Seq<char>| #[trigger] t@.contains_key(k) ==> exists|j: int| 0 <= j < n && t.keys()[j] == k,
            r@.dom() == t.keys().subrange(0, i as int).to_set(),
            forall|k: Seq<char>| #[trigger] r@.contains_key(k) ==> t@.contains_key(k) && r@[k]@ == t@[k]@,
        decreases n - i,
    {
        let (k, v) = t.entry(i);
        r.insert(k.clone(), v.copy());
        proof {
            let ks = t.keys();
            assert(ks.subrange(0, i + 1) =~= ks.subrange(0, i as int).push(ks[i as int]));
            ks.subrange(0, i as int).lemma_push_to_set_commute(ks[i as int]);
        }
        i = i + 1;
        assert(r@.dom() =~= t.keys().subrange(0, i as int).to_set());
    }
    proof {
        assert(t.keys().subrange(0, n as int) =~= t.keys());
        assert forall|k: Seq<char>| #[trigger] t@.contains_key(k) implies r@.contains_key(k) by {
            let j = choose|j: int| 0 <= j < n && t.keys()[j] == k;
            assert(t.keys().to_set().contains(t.keys()[j]));
        }
        assert(r@.map_values(|a: MessageAttributeValue| a@) =~= t@.map_values(|a: MessageAttributeValue| a@));
    }
    r
}

impl SqsMessage {
    /// A copy of the message.
    pub fn copy(&self) -> (r: Self)
        requires
            self.wf(),
        ensures
            r@ == self@,
            r.wf(),
    {
        SqsMessage {
            message_id: self.message_id.clone(),
            receipt_handle: self.receipt_handle.clone(),
            md5_of_body: self.md5_of_body.clone(),
            body: self.body.clone(),
            attributes: copy_string_table(&self.attributes),
            message_attributes: copy_attr_table(&self.message_attributes),
            receive_count: self.receive_count,
            sent_timestamp: self.sent_timestamp,
            first_received_timestamp: self.first_received_timestamp,
            visible_at: self.visible_at,
            message_group_id: copy_opt(&self.message_group_id),
            message_deduplication_id: copy_opt(&self.message_deduplication_id),
            sequence_number: self.sequence_number,
        }
    }
}

/// The views of a list of messages.
pub open spec fn message_views(v: Seq<SqsMessage>) -> Seq<MessageView> {
    v.map_values(|m: SqsMessage| m@)
}

/// A queue: its identity, settings and messages.
pub struct QueueState {
    pub name: String,
    pub url: String,
    pub arn: String,
    pub attributes: QueueAttributes,
    pub messages: Vec<SqsMessage>,
    pub in_flight: Table<SqsMessage>,
    pub dedup_cache: Table<i64>,
    pub dedup_ids: Table<String>,
    pub sequence_counter: u64,
}

/// A queue as text.
pub struct QueueView {
    pub name: Seq<char>,
    pub url: Seq<char>,
    pub arn: Seq<char>,
    pub attributes: SettingsView,
    pub messages: Seq<MessageView>,
    pub in_flight: Map<Seq<char>, MessageView>,
    pub dedup: Map<Seq<char>, i64>,
    pub dedup_ids: Map<Seq<char>, Seq<char>>,
    pub sequence_counter: u64,
}

impl QueueState {
    pub open spec fn view(&self) -> QueueView {
        QueueView {
            name: self.name@,
            url: self.url@,
            arn: self.arn@,
            attributes: self.attributes@,
            messages: message_views(self.messages@),
            in_flight: self.in_flight@.map_values(|m: SqsMessage| m@),
            dedup: self.dedup_cache@,
            dedup_ids: self.dedup_ids@.map_values(|s: String| s@),
            sequence_counter: self.sequence_counter,
        }
    }

    /// The tables are well formed, and so is every message.
    pub open spec fn wf(&self) -> bool {
        &&& self.in_flight.wf()
        &&& self.dedup_cache.wf()
        &&& self.dedup_ids.wf()
        &&& forall|i: int| 0 <= i < self.messages@.len() ==> (#[trigger] self.messages@[i]).wf()
        &&& forall|k: Seq<char>| #[trigger] self.in_flight@.contains_key(k) ==> self.in_flight@[k].wf()
    }

    /// The URL of a queue.
    pub open spec fn queue_url(account: Seq<char>, name: Seq<char>) -> Seq<char> {
        "http://localhost:4566/"@ + account + "/"@ + name
    }

    /// The ARN of a queue.
    pub open spec fn queue_arn(region: Seq<char>, account: Seq<char>, name: Seq<char>) -> Seq<char> {
        "arn:aws:sqs:"@ + region + ":"@ + account + ":"@ + name
    }

    /// An empty queue.
    pub fn new(name: String, account_id: &str, region: &str, attributes: QueueAttributes) -> (q: Self)
        ensures
            q.wf(),
            q@ == (QueueView {
                name: name@,
                url: QueueState::queue_url(account_id@, name@),
                arn: QueueState::queue_arn(region@, account_id@, name@),
                attributes: attributes@,
                messages: Seq::empty(),
                in_flight: Map::empty(),
                dedup: Map::empty(),
                dedup_ids: Map::empty(),
                sequence_counter: 0,
            }),
    {
        let mut url = String::new();
        append(&mut url, "http://localhost:4566/");
        append(&mut url, account_id);
        append(&mut url, "/");
        append(&mut url, name.as_str());
        let mut arn = String::new();
        append(&mut arn, "arn:aws:sqs:");
        append(&mut arn, region);
        append(&mut arn, ":");
        append(&mut arn, account_id);
        append(&mut arn, ":");
        append(&mut arn, name.as_str());
        let q = QueueState {
            name,
            url,
            arn,
            attributes,
            messages: Vec::new(),
            in_flight: Table::new(),
            dedup_cache: Table::new(),
            dedup_ids: Table::new(),
            sequence_counter: 0,
        };
        assert(q@.url =~= QueueState::queue_url(account_id@, q.name@));
        assert(q@.arn =~= QueueState::queue_arn(region@, account_id@, q.name@));
        assert(q@.messages =~= Seq::<MessageView>::empty());
        assert(q@.in_flight =~= Map::<Seq<char>, MessageView>::empty());
        assert(q@.dedup_ids =~= Map::<Seq<char>, Seq<char>>::empty());
        q
    }
}


/// The messages in flight that have become visible again by `now`, taken in
/// the order of `keys`.
pub open spec fn expired_messages(keys: Seq<Seq<char>>, m: Map<Seq<char>, MessageView>, now: i64) -> Seq<
    MessageView,
>
    decreases keys.len(),
{
    if keys.len() == 0 {
        Seq::empty()
    } else {
        let rest = expired_messages(keys.drop_last(), m, now);
        if m[keys.last()].visible_at <= now {
            rest.push(m[keys.last()])
        } else {
            rest
        }
    }
}

/// The messages that stay in flight at `now`.
pub open spec fn unexpired(m: Map<Seq<char>, MessageView>, now: i64) -> Map<Seq<char>, MessageView> {
    Map::new(|k: Seq<char>| m.contains_key(k) && m[k].visible_at > now, |k: Seq<char>| m[k])
}

impl QueueState {
    /// The queue once the messages whose visibility ran out by `now` are back at
    /// the front of the waiting messages, in receipt-handle order.
    pub open spec fn refreshed(&self, now: i64) -> QueueView {
        QueueView {
            messages: expired_messages(self.in_flight.keys(), self@.in_flight, now) + self@.messages,
            in_flight: unexpired(self@.in_flight, now),
            ..self@
        }
    }

    /// The queue emptied: no message waiting, in flight or remembered for
    /// deduplication.
    pub open spec fn purged(q: QueueView) -> QueueView {
        QueueView { messages: Seq::empty(), in_flight: Map::empty(), dedup: Map::empty(), dedup_ids: Map::empty(), ..q }
    }

    /// Puts the messages whose visibility ran out by `now` (milliseconds) back at
    /// the front of the queue.
    pub fn check_expired_in_flight(&mut self, now: i64)
        requires
            old(self).wf(),
        ensures
            final(self).wf(),
            final(self)@ == old(self).refreshed(now),
    {
        let n = self.in_flight.len();
        proof {
            self.in_flight.lemma_wf();
        }
        let ghost keys = self.in_flight.keys();
        let ghost mv = self@.in_flight;
        let mut expired: Vec<SqsMessage> = Vec::new();
        let mut kept: Table<SqsMessage> = Table::new();
        let mut i: usize = 0;
        while i < n
            invariant
                self.in_flight.wf(),
                keys == self.in_flight.keys(),
                mv == self@.in_flight,
                n == keys.len(),
                i <= n,
                forall|j: int|
                    0 <= j < n ==> #[trigger] self.in_flight@.contains_key(keys[j])
                        && self.in_flight@[keys[j]] == self.in_flight.vals()[j],
                forall|k: Seq<char>| #[trigger] self.in_flight@.contains_key(k) ==> self.in_flight@[k].wf(),
                message_views(expired@) == expired_messages(keys.subrange(0, i as int), mv, now),
                forall|j: int| 0 <= j < expired@.len() ==> (#[trigger] expired@[j]).wf(),
                kept.wf(),
                forall|k: Seq<char>|
                    #[trigger] kept@.contains_key(k) ==> mv.contains_key(k) && mv[k].visible_at > now
                        && kept@[k]@ == mv[k] && kept@[k].wf(),
                forall|j: int| 0 <= j < i && mv[keys[j]].visible_at > now ==> kept@.contains_key(#[trigger] keys[j]),
            decreases n - i,
        {
            let (k, m) = self.in_flight.entry(i);
            proof {
                assert(keys.subrange(0, i + 1).drop_last() =~= keys.subrange(0, i as int));
                assert(keys.subrange(0, i + 1).last() == keys[i as int]);
                assert(self.in_flight@.contains_key(keys[i as int]));
                assert(mv[keys[i as int]] == m@);
                assert(self.in_flight@[keys[i as int]].wf());
            }
            if m.visible_at <= now {
                expired.push(m.copy());
                assert(message_views(expired@) =~= expired_messages(keys.subrange(0, i + 1), mv, now));
            } else {
                kept.insert(k.clone(), m.copy());
                assert(message_views(expired@) =~= expired_messages(keys.subrange(0, i + 1), mv, now));
            }
            i = i + 1;
        }
        proof {
            assert(keys.subrange(0, n as int) =~= keys);
            assert forall|k: Seq<char>| #[trigger] unexpired(mv, now).contains_key(k) implies kept@.contains_key(k) by {
                let j = choose|j: int| 0 <= j < keys.len() && keys[j] == k;
                assert(kept@.contains_key(keys[j]));
            }
            assert(kept@.map_values(|m: SqsMessage| m@) =~= unexpired(mv, now));
        }
        let ghost old_msgs = self.messages@;
        let ghost ex = expired@;
        expired.append(&mut self.messages);
        proof {
            assert(expired@ == ex + old_msgs);
            assert(message_views(ex + old_msgs) =~= message_views(ex) + message_views(old_msgs));
            assert forall|j: int| 0 <= j < expired@.len() implies (#[trigger] expired@[j]).wf() by {
                if j >= ex.len() {
                    assert(expired@[j] == old_msgs[j - ex.len()]);
                }
            }
        }
        self.messages = expired;
        self.in_flight = kept;
    }

    /// Drops every message and the deduplication window.
    pub fn purge(&mut self)
        requires
            old(self).wf(),
        ensures
            final(self).wf(),
            final(self)@ == QueueState::purged(old(self)@),
    {
        self.messages.clear();
        self.in_flight.clear();
        self.dedup_cache.clear();
        self.dedup_ids.clear();
        assert(self@.dedup_ids =~= Map::<Seq<char>, Seq<char>>::empty());
        assert(self@.messages =~= Seq::<MessageView>::empty());
        assert(self@.in_flight =~= Map::<Seq<char>, MessageView>::empty());
    }
}

} // verus!
