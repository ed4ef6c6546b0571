//! The in-memory S3 store: buckets, their objects, multipart uploads and
//! notification settings.
use vstd::prelude::*;
use crate::runtime::{hex_encode, hex_lower, md5_digest, md5_of, new_uuid, now_rfc3339};
use crate::s3::types::{
    filter_admits, BucketNotificationConfig, ByteRange, NotificationFilter, QueueNotificationConfig,
    TopicNotificationConfig,
};
use crate::table::{
    lemma_map_values_insert, lemma_map_values_remove, lemma_map_values_remove_keys, IntTable, Table,
};
use crate::text::{
    find_sub, find_sub_exec, is_suffix, lemma_find_sub_bound, lemma_find_sub_found,
    append, append_u64, chars_to_string, decimal, is_prefix, push_char, seq_lt, starts_with, str_eq,
    str_lt, to_chars, views,
};

verus! {

/// Why an S3 request failed.
#[derive(Debug, Clone, Copy, PartialEq, Eq)]
pub enum S3ErrorKind {
    NoSuchBucket,
    BucketAlreadyOwnedByYou,
    BucketNotEmpty,
    NoSuchKey,
    InvalidRange,
    NoSuchUpload,
    InvalidPart,
    MalformedXml,
}

/// A failed S3 request: the reason and the resource it concerns.
#[derive(Debug)]
pub struct S3Error {
    pub kind: S3ErrorKind,
    pub resource: Option<String>,
}

impl S3ErrorKind {
    /// The error code that S3 returns, as text.
    pub open spec fn code_spec(&self) -> Seq<char> {
        match self {
            S3ErrorKind::NoSuchBucket => "NoSuchBucket"@,
            S3ErrorKind::BucketAlreadyOwnedByYou => "BucketAlreadyOwnedByYou"@,
            S3ErrorKind::BucketNotEmpty => "BucketNotEmpty"@,
            S3ErrorKind::NoSuchKey => "NoSuchKey"@,
            S3ErrorKind::InvalidRange => "InvalidRange"@,
            S3ErrorKind::NoSuchUpload => "NoSuchUpload"@,
            S3ErrorKind::InvalidPart => "InvalidPart"@,
            S3ErrorKind::MalformedXml => "MalformedXML"@,
        }
    }

    /// The error code that S3 returns.
    pub fn code(&self) -> (r: &'static str)
        ensures
            r@ == self.code_spec(),
    {
        match self {
            S3ErrorKind::NoSuchBucket => "NoSuchBucket",
            S3ErrorKind::BucketAlreadyOwnedByYou => "BucketAlreadyOwnedByYou",
            S3ErrorKind::BucketNotEmpty => "BucketNotEmpty",
            S3ErrorKind::NoSuchKey => "NoSuchKey",
            S3ErrorKind::InvalidRange => "InvalidRange",
            S3ErrorKind::NoSuchUpload => "NoSuchUpload",
            S3ErrorKind::InvalidPart => "InvalidPart",
            S3ErrorKind::MalformedXml => "MalformedXML",
        }
    }

    /// The HTTP status of the error.
    pub fn status(&self) -> (r: u16)
        ensures
            r == match self {
                S3ErrorKind::NoSuchBucket | S3ErrorKind::NoSuchKey | S3ErrorKind::NoSuchUpload => 404u16,
                S3ErrorKind::BucketAlreadyOwnedByYou | S3ErrorKind::BucketNotEmpty => 409u16,
                S3ErrorKind::InvalidRange => 416u16,
                S3ErrorKind::InvalidPart | S3ErrorKind::MalformedXml => 400u16,
            },
    {
        match self {
            S3ErrorKind::NoSuchBucket | S3ErrorKind::NoSuchKey | S3ErrorKind::NoSuchUpload => 404,
            S3ErrorKind::BucketAlreadyOwnedByYou | S3ErrorKind::BucketNotEmpty => 409,
            S3ErrorKind::InvalidRange => 416,
            S3ErrorKind::InvalidPart | S3ErrorKind::MalformedXml => 400,
        }
    }

    /// The human-readable message of the error, as text.
    pub open spec fn message_spec(&self) -> Seq<char> {
        match self {
            S3ErrorKind::NoSuchBucket => "The specified bucket does not exist"@,
            S3ErrorKind::BucketAlreadyOwnedByYou => "Your previous request to create the named bucket succeeded and you already own it."@,
            S3ErrorKind::BucketNotEmpty => "The bucket you tried to delete is not empty"@,
            S3ErrorKind::NoSuchKey => "The specified key does not exist."@,
            S3ErrorKind::InvalidRange => "The requested range cannot be satisfied"@,
            S3ErrorKind::NoSuchUpload => "The specified multipart upload does not exist"@,
            S3ErrorKind::InvalidPart => "One or more of the specified parts was not found"@,
            S3ErrorKind::MalformedXml => "The XML you provided was not well-formed"@,
        }
    }

    /// The human-readable message of the error.
    pub fn message(&self) -> (r: &'static str)
        ensures
            r@ == self.message_spec(),
    {
        match self {
            S3ErrorKind::NoSuchBucket => "The specified bucket does not exist",
            S3ErrorKind::BucketAlreadyOwnedByYou => "Your previous request to create the named bucket succeeded and you already own it.",
            S3ErrorKind::BucketNotEmpty => "The bucket you tried to delete is not empty",
            S3ErrorKind::NoSuchKey => "The specified key does not exist.",
            S3ErrorKind::InvalidRange => "The requested range cannot be satisfied",
            S3ErrorKind::NoSuchUpload => "The specified multipart upload does not exist",
            S3ErrorKind::InvalidPart => "One or more of the specified parts was not found",
            S3ErrorKind::MalformedXml => "The XML you provided was not well-formed",
        }
    }
}

/// Identity of a bucket.
#[derive(Debug)]
pub struct BucketInfo {
    pub name: String,
    pub creation_date: String,
    pub region: String,
}

impl BucketInfo {
    /// A copy of the record.
    pub fn copy(&self) -> (r: Self)
        ensures
            r == *self,
    {
        BucketInfo {
            name: self.name.clone(),
            creation_date: self.creation_date.clone(),
            region: self.region.clone(),
        }
    }
}

/// The views of a list of string pairs.
pub open spec fn pairs_view(v: Seq<(String, String)>) -> Seq<(Seq<char>, Seq<char>)> {
    v.map_values(|p: (String, String)| (p.0@, p.1@))
}

/// A copy of a list of string pairs.
pub fn copy_pairs(v: &Vec<(String, String)>) -> (r: Vec<(String, String)>)
    ensures
        pairs_view(r@) == pairs_view(v@),
{
    let mut r: Vec<(String, String)> = Vec::new();
    let mut i: usize = 0;
    while i < v.len()
        invariant
            i <= v@.len(),
            r@.len() == i,
            forall|j: int| 0 <= j < i ==> #[trigger] r@[j] == v@[j],
        decreases v.len() - i,
    {
        let p = &v[i];
        r.push((p.0.clone(), p.1.clone()));
        i = i + 1;
    }
    assert(pairs_view(r@) =~= pairs_view(v@));
    r
}

/// A copy of `v[from..to]`.
pub fn copy_bytes(v: &Vec<u8>, from: usize, to: usize) -> (r: Vec<u8>)
    requires
        from <= to <= v@.len(),
    ensures
        r@ == v@.subrange(from as int, to as int),
{
    let mut r: Vec<u8> = Vec::new();
    let mut i: usize = from;
    while i < to
        invariant
            from <= i <= to <= v@.len(),
            r@ == v@.subrange(from as int, i as int),
        decreases to - i,
    {
        r.push(v[i]);
        i = i + 1;
        assert(r@ == v@.subrange(from as int, i as int));
    }
    r
}

/// What the store keeps of an object, without its data.
pub struct MetaView {
    pub key: Seq<char>,
    pub size: u64,
    pub etag: Seq<char>,
    pub last_modified: Seq<char>,
    pub content_type: Seq<char>,
    pub user_metadata: Seq<(Seq<char>, Seq<char>)>,
}

/// The metadata of a stored object.
#[derive(Debug)]
pub struct ObjectMetadata {
    pub key: String,
    pub size: u64,
    pub etag: String,
    pub last_modified: String,
    pub content_type: String,
    pub user_metadata: Vec<(String, String)>,
}

impl ObjectMetadata {
    pub open spec fn view(&self) -> MetaView {
        MetaView {
            key: self.key@,
            size: self.size,
            etag: self.etag@,
            last_modified: self.last_modified@,
            content_type: self.content_type@,
            user_metadata: pairs_view(self.user_metadata@),
        }
    }

    /// A copy of the record.
    pub fn copy(&self) -> (r: Self)
        ensures
            r@ == self@,
    {
        ObjectMetadata {
            key: self.key.clone(),
            size: self.size,
            etag: self.etag.clone(),
            last_modified: self.last_modified.clone(),
            content_type: self.content_type.clone(),
            user_metadata: copy_pairs(&self.user_metadata),
        }
    }
}

/// A stored object as the store sees it.
pub struct ObjectView {
    pub meta: MetaView,
    pub data: Seq<u8>,
}

/// An object and its bytes.
pub struct StoredObject {
    pub metadata: ObjectMetadata,
    pub data: Vec<u8>,
}

impl StoredObject {
    pub open spec fn view(&self) -> ObjectView {
        ObjectView { meta: self.metadata@, data: self.data@ }
    }
}

/// A part of a multipart upload as the store sees it.
pub struct PartView {
    pub etag: Seq<char>,
    pub size: u64,
    pub data: Seq<u8>,
    pub last_modified: Seq<char>,
}

/// One uploaded part.
pub struct StoredPart {
    pub part_number: i32,
    pub etag: String,
    pub size: u64,
    pub data: Vec<u8>,
    pub last_modified: String,
}

impl StoredPart {
    pub open spec fn view(&self) -> PartView {
        PartView { etag: self.etag@, size: self.size, data: self.data@, last_modified: self.last_modified@ }
    }
}

/// What the store reports of an uploaded part.
#[derive(Debug)]
pub struct PartInfo {
    pub part_number: i32,
    pub etag: String,
    pub size: u64,
    pub last_modified: String,
}

/// `list` reports every part of `parts` once, in ascending part number order.
pub open spec fn lists_parts(list: Seq<PartInfo>, parts: Map<i32, PartView>) -> bool {
    &&& forall|i: int| 0 <= i < list.len() ==> {
        &&& #[trigger] parts.contains_key(list[i].part_number)
        &&& list[i].etag@ == parts[list[i].part_number].etag
        &&& list[i].size == parts[list[i].part_number].size
        &&& list[i].last_modified@ == parts[list[i].part_number].last_modified
    }
    &&& forall|n: i32| #[trigger] parts.contains_key(n) ==> exists|i: int| 0 <= i < list.len() && list[i].part_number == n
    &&& forall|i: int, j: int| 0 <= i < j < list.len() ==> #[trigger] list[i].part_number < #[trigger] list[j].part_number
}

/// A multipart upload as the store sees it.
pub struct UploadView {
    pub key: Seq<char>,
    pub content_type: Option<Seq<char>>,
    pub user_metadata: Seq<(Seq<char>, Seq<char>)>,
    pub parts: Map<i32, PartView>,
}

/// An open view of an optional string.
pub open spec fn opt_view(o: Option<String>) -> Option<Seq<char>> {
    match o {
        Some(s) => Some(s@),
        None => None,
    }
}

/// A multipart upload in progress.
pub struct MultipartUpload {
    pub upload_id: String,
    pub key: String,
    pub content_type: Option<String>,
    pub user_metadata: Vec<(String, String)>,
    pub parts: IntTable<StoredPart>,
}

impl MultipartUpload {
    pub open spec fn view(&self) -> UploadView {
        UploadView {
            key: self.key@,
            content_type: opt_view(self.content_type),
            user_metadata: pairs_view(self.user_metadata@),
            parts: self.parts@.map_values(|p: StoredPart| p.view()),
        }
    }
}

/// A part named by the client when it completes an upload.
#[derive(Debug, Clone)]
pub struct CompletedPart {
    pub part_number: i32,
    pub etag: String,
}

/// A bucket as the store sees it.
pub struct BucketView {
    pub name: Seq<char>,
    pub region: Seq<char>,
    pub creation_date: Seq<char>,
    pub objects: Map<Seq<char>, ObjectView>,
    pub uploads: Map<Seq<char>, UploadView>,
}

/// A bucket with its objects, uploads and notification settings.
pub struct Bucket {
    pub info: BucketInfo,
    pub objects: Table<StoredObject>,
    pub uploads: Table<MultipartUpload>,
    pub notifications: BucketNotificationConfig,
}

impl Bucket {
    pub open spec fn view(&self) -> BucketView {
        BucketView {
            name: self.info.name@,
            region: self.info.region@,
            creation_date: self.info.creation_date@,
            objects: self.objects@.map_values(|o: StoredObject| o.view()),
            uploads: self.uploads@.map_values(|u: MultipartUpload| u.view()),
        }
    }

    /// The tables are well formed and each object is filed under its own key.
    pub open spec fn wf(&self) -> bool {
        &&& self.objects.wf()
        &&& self.uploads.wf()
        &&& forall|k: Seq<char>| #[trigger] self.objects@.contains_key(k) ==> self.objects@[k].metadata.key@ == k
            && self.objects@[k].metadata.size == self.objects@[k].data@.len()
        &&& forall|k: Seq<char>| #[trigger] self.uploads@.contains_key(k) ==> self.uploads@[k].parts.wf()
    }
}

/// The quoted lower-case hexadecimal MD5 digest that S3 uses as an ETag.
pub open spec fn etag_of(data: Seq<u8>) -> Seq<char> {
    seq!['"'] + hex_lower(md5_of(data)) + seq!['"']
}

/// The ETag of a byte string.
pub fn calculate_etag(data: &[u8]) -> (r: String)
    ensures
        r@ == etag_of(data@),
{
    let digest = md5_digest(data);
    let hex = hex_encode(digest.as_slice());
    let mut r = String::new();
    push_char(&mut r, '"');
    append(&mut r, hex.as_str());
    push_char(&mut r, '"');
    assert(r@ =~= etag_of(data@));
    r
}

/// The content type stored for an object put with `content_type`.
pub open spec fn content_type_or_default(content_type: Option<Seq<char>>) -> Seq<char> {
    match content_type {
        Some(c) => c,
        None => "application/octet-stream"@,
    }
}

/// A bucket name as an error's resource.
fn resource(name: &str) -> (r: Option<String>)
    ensures
        r matches Some(s) && s@ == name@,
{
    Some(name.to_owned())
}


/// The S3 event names that a notification pattern selects: `*`, the name itself,
/// or a pattern ending in `*` whose stem starts the name.
pub open spec fn event_matches(pattern: Seq<char>, event_name: Seq<char>) -> bool {
    ||| pattern == seq!['*']
    ||| pattern == event_name
    ||| (pattern.len() > 0 && pattern.last() == '*' && is_prefix(pattern.drop_last(), event_name))
}

/// Whether a notification pattern selects an event.
pub fn event_matches_exec(pattern: &str, event_name: &str) -> (r: bool)
    ensures
        r == event_matches(pattern@, event_name@),
{
    let p = to_chars(pattern);
    if p.len() == 1 && p[0] == '*' {
        assert(pattern@ =~= seq!['*']);
        return true;
    }
    if str_eq(pattern, event_name) {
        return true;
    }
    if p.len() > 0 && p[p.len() - 1] == '*' {
        let stem = chars_to_string(p.as_slice(), 0, p.len() - 1);
        assert(stem@ =~= pattern@.drop_last());
        let r = starts_with(event_name, stem.as_str());
        proof {
            if p@.len() == 1 && p@[0] == '*' {
                assert(pattern@ =~= seq!['*']);
            }
        }
        return r;
    }
    proof {
        if pattern@ == seq!['*'] {
            assert(p@.len() == 1 && p@[0] == '*');
        }
    }
    false
}

/// Some pattern of `events` selects `event_name`.
pub open spec fn any_event_matches(events: Seq<String>, event_name: Seq<char>) -> bool {
    exists|i: int| 0 <= i < events.len() && event_matches(#[trigger] events[i]@, event_name)
}

/// Whether some pattern selects the event.
fn any_event_matches_exec(events: &Vec<String>, event_name: &str) -> (r: bool)
    ensures
        r == any_event_matches(events@, event_name@),
{
    let mut i: usize = 0;
    while i < events.len()
        invariant
            i <= events@.len(),
            forall|j: int| 0 <= j < i ==> !event_matches(#[trigger] events@[j]@, event_name@),
        decreases events.len() - i,
    {
        if event_matches_exec(events[i].as_str(), event_name) {
            return true;
        }
        i = i + 1;
    }
    false
}

/// Where a notification goes.
#[derive(Debug)]
pub enum DeliveryTarget {
    Queue(String),
    Topic(String),
    EventBridge(String),
}

/// The destination of a delivery, as plain text.
pub enum TargetView {
    Queue(Seq<char>),
    Topic(Seq<char>),
    EventBridge(Seq<char>),
}

impl DeliveryTarget {
    pub open spec fn view(&self) -> TargetView {
        match self {
            DeliveryTarget::Queue(a) => TargetView::Queue(a@),
            DeliveryTarget::Topic(a) => TargetView::Topic(a@),
            DeliveryTarget::EventBridge(d) => TargetView::EventBridge(d@),
        }
    }
}

/// A notification of an object event that is due to be sent.
#[derive(Debug)]
pub struct Notification {
    pub target: DeliveryTarget,
    pub bucket: String,
    pub region: String,
    pub key: String,
    pub size: u64,
    pub etag: String,
    pub event_name: String,
}

/// The EventBridge detail type of an S3 event.
pub open spec fn detail_type_of(event_name: Seq<char>) -> Seq<char> {
    if is_prefix("s3:ObjectCreated"@, event_name) {
        "Object Created"@
    } else if is_prefix("s3:ObjectRemoved"@, event_name) {
        "Object Deleted"@
    } else {
        "Object Event"@
    }
}

/// The filter of a configuration lets `key` through (a missing filter lets all keys through).
pub open spec fn opt_filter_admits(f: Option<NotificationFilter>, key: Seq<char>) -> bool {
    match f {
        Some(f) => filter_admits(f.rules@, key),
        None => true,
    }
}

/// The queues that receive an event, in configuration order.
pub open spec fn queue_targets(qs: Seq<QueueNotificationConfig>, key: Seq<char>, event_name: Seq<char>) -> Seq<TargetView>
    decreases qs.len(),
{
    if qs.len() == 0 {
        Seq::empty()
    } else {
        let q = qs.last();
        let prev = queue_targets(qs.drop_last(), key, event_name);
        if any_event_matches(q.events@, event_name) && opt_filter_admits(q.filter, key) {
            prev.push(TargetView::Queue(q.queue_arn@))
        } else {
            prev
        }
    }
}

/// The topics that receive an event, in configuration order.
pub open spec fn topic_targets(ts: Seq<TopicNotificationConfig>, key: Seq<char>, event_name: Seq<char>) -> Seq<TargetView>
    decreases ts.len(),
{
    if ts.len() == 0 {
        Seq::empty()
    } else {
        let t = ts.last();
        let prev = topic_targets(ts.drop_last(), key, event_name);
        if any_event_matches(t.events@, event_name) && opt_filter_admits(t.filter, key) {
            prev.push(TargetView::Topic(t.topic_arn@))
        } else {
            prev
        }
    }
}

/// Every destination of an event under a configuration, in the order they are
/// sent: matching queues, matching topics, then EventBridge when it is enabled.
pub open spec fn event_targets(config: BucketNotificationConfig, key: Seq<char>, event_name: Seq<char>) -> Seq<TargetView> {
    if config.spec_is_empty() {
        Seq::empty()
    } else {
        queue_targets(config.queue_configurations@, key, event_name) + topic_targets(
            config.topic_configurations@,
            key,
            event_name,
        ) + if config.eventbridge_enabled {
            seq![TargetView::EventBridge(detail_type_of(event_name))]
        } else {
            Seq::empty()
        }
    }
}

/// The destinations of the notifications in a list.
pub open spec fn notification_targets(ns: Seq<Notification>) -> Seq<TargetView> {
    ns.map_values(|n: Notification| n.target@)
}

/// The destinations of an event under a configuration.
pub fn targets_of(config: &BucketNotificationConfig, key: &str, event_name: &str) -> (r: Vec<DeliveryTarget>)
    ensures
        r@.map_values(|t: DeliveryTarget| t@) == event_targets(*config, key@, event_name@),
{
    let mut r: Vec<DeliveryTarget> = Vec::new();
    if config.is_empty() {
        assert(r@.map_values(|t: DeliveryTarget| t@) =~= Seq::<TargetView>::empty());
        return r;
    }
    let qs = &config.queue_configurations;
    let mut i: usize = 0;
    while i < qs.len()
        invariant
            i <= qs@.len(),
            r@.map_values(|t: DeliveryTarget| t@) == queue_targets(qs@.subrange(0, i as int), key@, event_name@),
        decreases qs.len() - i,
    {
        let q = &qs[i];
        let ev = any_event_matches_exec(&q.events, event_name);
        let fm = match &q.filter {
            Some(f) => f.matches(key),
            None => true,
        };
        let ghost before = r@.map_values(|t: DeliveryTarget| t@);
        assert(qs@.subrange(0, i + 1).drop_last() =~= qs@.subrange(0, i as int));
        if ev && fm {
            r.push(DeliveryTarget::Queue(q.queue_arn.clone()));
            assert(r@.map_values(|t: DeliveryTarget| t@) =~= before.push(TargetView::Queue(q.queue_arn@)));
        }
        i = i + 1;
    }
    assert(qs@.subrange(0, qs@.len() as int) =~= qs@);
    let ghost qpart = r@.map_values(|t: DeliveryTarget| t@);
    let mut t: Vec<DeliveryTarget> = Vec::new();
    let ts = &config.topic_configurations;
    let mut j: usize = 0;
    while j < ts.len()
        invariant
            j <= ts@.len(),
            t@.map_values(|t: DeliveryTarget| t@) == topic_targets(ts@.subrange(0, j as int), key@, event_name@),
        decreases ts.len() - j,
    {
        let tc = &ts[j];
        let ev = any_event_matches_exec(&tc.events, event_name);
        let fm = match &tc.filter {
            Some(f) => f.matches(key),
            None => true,
        };
        let ghost before = t@.map_values(|t: DeliveryTarget| t@);
        assert(ts@.subrange(0, j + 1).drop_last() =~= ts@.subrange(0, j as int));
        if ev && fm {
            t.push(DeliveryTarget::Topic(tc.topic_arn.clone()));
            assert(t@.map_values(|t: DeliveryTarget| t@) =~= before.push(TargetView::Topic(tc.topic_arn@)));
        }
        j = j + 1;
    }
    assert(ts@.subrange(0, ts@.len() as int) =~= ts@);
    let ghost tpart = t@.map_values(|t: DeliveryTarget| t@);
    r.append(&mut t);
    assert(r@.map_values(|t: DeliveryTarget| t@) =~= qpart + tpart);
    if config.eventbridge_enabled {
        let detail = if starts_with(event_name, "s3:ObjectCreated") {
            "Object Created".to_owned()
        } else if starts_with(event_name, "s3:ObjectRemoved") {
            "Object Deleted".to_owned()
        } else {
            "Object Event".to_owned()
        };
        let ghost before = r@.map_values(|t: DeliveryTarget| t@);
        r.push(DeliveryTarget::EventBridge(detail));
        assert(r@.map_values(|t: DeliveryTarget| t@) =~= before.push(TargetView::EventBridge(detail_type_of(event_name@))));
    }
    assert(r@.map_values(|t: DeliveryTarget| t@) =~= event_targets(*config, key@, event_name@));
    r
}

/// A bucket view with one object stored under `k`.
pub open spec fn with_object(b: BucketView, k: Seq<char>, o: ObjectView) -> BucketView {
    BucketView { objects: b.objects.insert(k, o), ..b }
}

/// A bucket view without the object under `k`.
pub open spec fn without_object(b: BucketView, k: Seq<char>) -> BucketView {
    BucketView { objects: b.objects.remove(k), ..b }
}

/// A bucket view with the upload `id` set to `u`.
pub open spec fn with_upload(b: BucketView, id: Seq<char>, u: UploadView) -> BucketView {
    BucketView { uploads: b.uploads.insert(id, u), ..b }
}

/// A bucket view without the upload `id`.
pub open spec fn without_upload(b: BucketView, id: Seq<char>) -> BucketView {
    BucketView { uploads: b.uploads.remove(id), ..b }
}

/// The `Content-Range` value of a partial read: `bytes start-end/total`.
pub open spec fn content_range_text(start: u64, end: u64, total: u64) -> Seq<char> {
    "bytes "@ + decimal(start as nat) + seq!['-'] + decimal(end as nat) + seq!['/'] + decimal(total as nat)
}

/// The last byte a range reads from an object of `total` bytes (`total > 0`).
pub open spec fn range_end(r: ByteRange, total: u64) -> u64 {
    let last = (total - 1) as u64;
    match r.end {
        Some(e) => if e < last { e } else { last },
        None => last,
    }
}

/// Whether a range would make the original slice panic: its end lies more than
/// one byte before its start.
pub open spec fn range_is_sane(range: Option<ByteRange>) -> bool {
    match range {
        Some(r) => match r.end {
            Some(e) => r.start <= e + 1,
            None => true,
        },
        None => true,
    }
}

/// `new` extends `old` by notifications whose destinations are `expected`.
pub open spec fn raised(old: Seq<Notification>, new: Seq<Notification>, expected: Seq<TargetView>) -> bool {
    &&& new.len() >= old.len()
    &&& new.subrange(0, old.len() as int) == old
    &&& notification_targets(new.subrange(old.len() as int, new.len() as int)) == expected
}

/// Raising `t1` and then `t2` raises `t1 + t2`.
pub proof fn lemma_raised_concat(
    p0: Seq<Notification>,
    p1: Seq<Notification>,
    p2: Seq<Notification>,
    t1: Seq<TargetView>,
    t2: Seq<TargetView>,
)
    requires
        raised(p0, p1, t1),
        raised(p1, p2, t2),
    ensures
        raised(p0, p2, t1 + t2),
{
    assert(p2.subrange(0, p0.len() as int) =~= p1.subrange(0, p0.len() as int));
    assert(p2.subrange(p0.len() as int, p2.len() as int) =~= p1.subrange(p0.len() as int, p1.len() as int)
        + p2.subrange(p1.len() as int, p2.len() as int));
    assert(notification_targets(p1.subrange(p0.len() as int, p1.len() as int) + p2.subrange(p1.len() as int, p2.len() as int))
        =~= notification_targets(p1.subrange(p0.len() as int, p1.len() as int)) + notification_targets(p2.subrange(p1.len() as int, p2.len() as int)));
}

/// Nothing raised.
pub proof fn lemma_raised_nothing(p: Seq<Notification>)
    ensures
        raised(p, p, Seq::empty()),
{
    assert(p.subrange(0, p.len() as int) =~= p);
    assert(p.subrange(p.len() as int, p.len() as int) =~= Seq::<Notification>::empty());
    assert(notification_targets(Seq::<Notification>::empty()) =~= Seq::<TargetView>::empty());
}

/// The objects of `ms` whose keys start with `pfx`, in order.
pub open spec fn matching(ms: Seq<MetaView>, pfx: Seq<char>) -> Seq<MetaView>
    decreases ms.len(),
{
    if ms.len() == 0 {
        Seq::empty()
    } else {
        let p = matching(ms.drop_last(), pfx);
        if is_prefix(pfx, ms.last().key) {
            p.push(ms.last())
        } else {
            p
        }
    }
}

/// Every object that `matching` keeps has the prefix.
pub proof fn lemma_matching_prefix(ms: Seq<MetaView>, pfx: Seq<char>)
    ensures
        forall|m: int| 0 <= m < matching(ms, pfx).len() ==> is_prefix(pfx, #[trigger] matching(ms, pfx)[m].key),
    decreases ms.len(),
{
    if ms.len() > 0 {
        lemma_matching_prefix(ms.drop_last(), pfx);
        let p = matching(ms.drop_last(), pfx);
        assert forall|m: int| 0 <= m < matching(ms, pfx).len() implies is_prefix(pfx, #[trigger] matching(ms, pfx)[m].key) by {
            if m < p.len() {
                assert(matching(ms, pfx)[m] == p[m]);
            }
        }
    }
}

/// The position of the first object of `ms` whose key sorts after `t`, or the
/// length of `ms` when there is none.
pub open spec fn first_after(ms: Seq<MetaView>, t: Seq<char>) -> nat
    decreases ms.len(),
{
    if ms.len() == 0 {
        0
    } else if seq_lt(t, ms[0].key) {
        0
    } else {
        1 + first_after(ms.drop_first(), t)
    }
}

/// Where a listing stands: the objects listed, the common prefixes met, whether
/// it stopped early, and the token to resume from.
pub struct ListScan {
    pub contents: Seq<MetaView>,
    pub prefixes: Set<Seq<char>>,
    pub truncated: bool,
    pub next: Option<Seq<char>>,
}

/// The common prefix that an object's key rolls up into under `delim`, if any.
pub open spec fn rolled_prefix(key: Seq<char>, pfx_len: int, delim: Option<Seq<char>>) -> Option<Seq<char>> {
    match delim {
        Some(d) => match find_sub(key.subrange(pfx_len, key.len() as int), d) {
            Some(j) => Some(key.subrange(0, pfx_len + j + d.len())),
            None => None,
        },
        None => None,
    }
}

/// A listing that continues from position `i` of `items`: keys that contain the
/// delimiter after the prefix roll up into common prefixes; the others are
/// listed until `max_keys` are listed, and the next one stops the listing with
/// the last listed key as the token.
pub open spec fn scan(items: Seq<MetaView>, i: int, pfx_len: int, delim: Option<Seq<char>>, max_keys: nat, st: ListScan) -> ListScan
    decreases items.len() - i,
{
    if i < 0 || i >= items.len() {
        st
    } else {
        match rolled_prefix(items[i].key, pfx_len, delim) {
            Some(c) => scan(items, i + 1, pfx_len, delim, max_keys, ListScan { prefixes: st.prefixes.insert(c), ..st }),
            None => if st.contents.len() >= max_keys {
                ListScan {
                    truncated: true,
                    next: if st.contents.len() == 0 { None } else { Some(st.contents.last().key) },
                    ..st
                }
            } else {
                scan(items, i + 1, pfx_len, delim, max_keys, ListScan { contents: st.contents.push(items[i]), ..st })
            },
        }
    }
}

/// The views of a list of object metadata.
pub open spec fn metas_view(v: Seq<ObjectMetadata>) -> Seq<MetaView> {
    v.map_values(|m: ObjectMetadata| m@)
}

/// The result of a V2 object listing.
#[derive(Debug)]
pub struct ListObjectsV2Result {
    pub is_truncated: bool,
    pub contents: Vec<ObjectMetadata>,
    pub name: String,
    pub prefix: String,
    pub delimiter: Option<String>,
    pub max_keys: usize,
    pub common_prefixes: Vec<String>,
    pub key_count: usize,
    pub continuation_token: Option<String>,
    pub next_continuation_token: Option<String>,
    pub start_after: Option<String>,
}

/// The bytes of the requested parts, in request order, or `None` when one of
/// them was never uploaded.
pub open spec fn concat_parts(parts: Map<i32, PartView>, req: Seq<CompletedPart>) -> Option<Seq<u8>>
    decreases req.len(),
{
    if req.len() == 0 {
        Some(Seq::empty())
    } else {
        match concat_parts(parts, req.drop_last()) {
            Some(prev) => if parts.contains_key(req.last().part_number) {
                Some(prev + parts[req.last().part_number].data)
            } else {
                None
            },
            None => None,
        }
    }
}

/// Once a prefix of the request names a missing part, the whole request does.
pub proof fn lemma_concat_parts_missing(parts: Map<i32, PartView>, req: Seq<CompletedPart>, i: int)
    requires
        0 <= i <= req.len(),
        concat_parts(parts, req.subrange(0, i)) is None,
    ensures
        concat_parts(parts, req) is None,
    decreases req.len(),
{
    if i == req.len() {
        assert(req.subrange(0, i) =~= req);
    } else {
        assert(req.drop_last().subrange(0, i) =~= req.subrange(0, i));
        lemma_concat_parts_missing(parts, req.drop_last(), i);
    }
}

/// The outcome of a batch delete.
#[derive(Debug, Default)]
pub struct DeleteObjectsResult {
    pub deleted: Vec<String>,
    pub errors: Vec<(String, String)>,
}

/// The view of a stored object built from its metadata and bytes.
pub open spec fn object_view(meta: MetaView, data: Seq<u8>) -> ObjectView {
    ObjectView { meta, data }
}

/// The keys of `keys` whose objects a batch delete removes: those present in
/// `present` and not named earlier in the batch.
pub open spec fn removed_keys(present: Set<Seq<char>>, keys: Seq<Seq<char>>) -> Seq<Seq<char>>
    decreases keys.len(),
{
    if keys.len() == 0 {
        Seq::empty()
    } else {
        let prev = removed_keys(present, keys.drop_last());
        if present.contains(keys.last()) && !keys.drop_last().contains(keys.last()) {
            prev.push(keys.last())
        } else {
            prev
        }
    }
}

/// The destinations of one event per key, in key order.
pub open spec fn targets_for_keys(config: BucketNotificationConfig, keys: Seq<Seq<char>>, event_name: Seq<char>) -> Seq<TargetView>
    decreases keys.len(),
{
    if keys.len() == 0 {
        Seq::empty()
    } else {
        targets_for_keys(config, keys.drop_last(), event_name) + event_targets(config, keys.last(), event_name)
    }
}

/// The in-memory S3 store.
pub struct InMemoryStorage {
    buckets: Table<Bucket>,
    notifications_enabled: bool,
    outbox: Vec<Notification>,
}

/// The bytes of the listed parts of `u`, in the order given, or `None` when
/// one of them was never uploaded.
fn join_parts(u: &MultipartUpload, req: &Vec<CompletedPart>) -> (r: Option<Vec<u8>>)
    requires
        u.parts.wf(),
    ensures
        match r {
            Some(d) => concat_parts(u.view().parts, req@) == Some(d@),
            None => concat_parts(u.view().parts, req@) is None,
        },
{
    let ghost pv = u.view().parts;
    let mut combined: Vec<u8> = Vec::new();
    let mut i: usize = 0;
    while i < req.len()
        invariant
            u.parts.wf(),
            pv == u.view().parts,
            i <= req@.len(),
            concat_parts(pv, req@.subrange(0, i as int)) == Some(combined@),
        decreases req@.len() - i,
    {
        assert(req@.subrange(0, i + 1).drop_last() =~= req@.subrange(0, i as int));
        match u.parts.get(req[i].part_number) {
            None => {
                proof {
                    lemma_concat_parts_missing(pv, req@, i + 1);
                }
                return None;
            },
            Some(p) => {
                combined.extend_from_slice(p.data.as_slice());
                assert(combined@ =~= concat_parts(pv, req@.subrange(0, i as int))->0 + pv[req@[i as int].part_number].data);
            },
        }
        i = i + 1;
    }
    assert(req@.subrange(0, req@.len() as int) =~= req@);
    Some(combined)
}

impl InMemoryStorage {
    /// The buckets, by name.
    pub closed spec fn view(&self) -> Map<Seq<char>, BucketView> {
        self.buckets@.map_values(|b: Bucket| b.view())
    }

    /// The notification configuration of each bucket.
    pub closed spec fn configs(&self) -> Map<Seq<char>, BucketNotificationConfig> {
        self.buckets@.map_values(|b: Bucket| b.notifications)
    }

    /// The bucket names, in ascending order.
    pub closed spec fn bucket_names(&self) -> Seq<Seq<char>> {
        self.buckets.keys()
    }

    /// The notifications raised and not yet taken.
    pub closed spec fn pending(&self) -> Seq<Notification> {
        self.outbox@
    }

    /// Whether a notification target has been attached.
    pub closed spec fn delivers(&self) -> bool {
        self.notifications_enabled
    }

    /// Every bucket is well formed and filed under its own name.
    pub closed spec fn wf(&self) -> bool {
        &&& self.buckets.wf()
        &&& forall|k: Seq<char>| #[trigger] self.buckets@.contains_key(k) ==> {
            &&& self.buckets@[k].wf()
            &&& self.buckets@[k].info.name@ == k
        }
    }

    /// An empty store.
    pub fn new() -> (s: Self)
        ensures
            s.wf(),
            s@ == Map::<Seq<char>, BucketView>::empty(),
            s.pending().len() == 0,
            !s.delivers(),
    {
        let s = InMemoryStorage { buckets: Table::new(), notifications_enabled: false, outbox: Vec::new() };
        assert(s@ =~= Map::<Seq<char>, BucketView>::empty());
        s
    }

    /// Removes every bucket.
    pub fn reset(&mut self)
        requires
            old(self).wf(),
        ensures
            final(self).wf(),
            final(self)@ == Map::<Seq<char>, BucketView>::empty(),
            final(self).pending() == old(self).pending(),
            final(self).delivers() == old(self).delivers(),
    {
        self.buckets.clear();
        assert(self@ =~= Map::<Seq<char>, BucketView>::empty());
    }

    /// Marks that a notification target is attached, so object events raise notifications.
    pub fn set_notification_target(&mut self)
        requires
            old(self).wf(),
        ensures
            final(self).wf(),
            final(self)@ == old(self)@,
            final(self).configs() == old(self).configs(),
            final(self).pending() == old(self).pending(),
            final(self).delivers(),
    {
        self.notifications_enabled = true;
    }

    /// Hands out the notifications raised so far, and forgets them.
    pub fn take_notifications(&mut self) -> (r: Vec<Notification>)
        requires
            old(self).wf(),
        ensures
            final(self).wf(),
            r@ == old(self).pending(),
            final(self).pending().len() == 0,
            final(self)@ == old(self)@,
            final(self).configs() == old(self).configs(),
            final(self).delivers() == old(self).delivers(),
    {
        let mut r: Vec<Notification> = Vec::new();
        std::mem::swap(&mut r, &mut self.outbox);
        r
    }

    proof fn lemma_views_after_insert(&self, other: &Self, k: Seq<char>, b: Bucket)
        requires
            other.buckets@ == self.buckets@.insert(k, b),
        ensures
            other@ == self@.insert(k, b.view()),
            other.configs() == self.configs().insert(k, b.notifications),
    {
        assert(other@ =~= self@.insert(k, b.view()));
        assert(other.configs() =~= self.configs().insert(k, b.notifications));
    }

    /// Raises the notifications of an object event on `bucket`, as the bucket's
    /// configuration asks, when a target is attached.
    pub fn dispatch_event(&mut self, bucket: &str, key: &str, size: u64, etag: &str, event_name: &str)
        requires
            old(self).wf(),
        ensures
            final(self).wf(),
            final(self)@ == old(self)@,
            final(self).configs() == old(self).configs(),
            final(self).delivers() == old(self).delivers(),
            final(self).pending().len() >= old(self).pending().len(),
            final(self).pending().subrange(0, old(self).pending().len() as int) == old(self).pending(),
            notification_targets(final(self).pending().subrange(old(self).pending().len() as int, final(self).pending().len() as int))
                == if old(self).delivers() && old(self)@.contains_key(bucket@) {
                event_targets(old(self).configs()[bucket@], key@, event_name@)
            } else {
                Seq::empty()
            },
    {
        let ghost before = self.outbox@;
        if !self.notifications_enabled {
            assert(self.outbox@.subrange(before.len() as int, before.len() as int) =~= Seq::<Notification>::empty());
            assert(notification_targets(Seq::<Notification>::empty()) =~= Seq::<TargetView>::empty());
            assert(self.outbox@.subrange(0, before.len() as int) =~= before);
            return;
        }
        match self.buckets.get(bucket) {
            None => {
                assert(!self@.contains_key(bucket@));
                assert(self.outbox@.subrange(before.len() as int, before.len() as int) =~= Seq::<Notification>::empty());
                assert(notification_targets(Seq::<Notification>::empty()) =~= Seq::<TargetView>::empty());
                assert(self.outbox@.subrange(0, before.len() as int) =~= before);
            },
            Some(b) => {
                let targets = targets_of(&b.notifications, key, event_name);
                let region = b.info.region.clone();
                let mut added: Vec<Notification> = Vec::new();
                let mut i: usize = 0;
                while i < targets.len()
                    invariant
                        i <= targets@.len(),
                        added@.len() == i,
                        forall|j: int| 0 <= j < i ==> (#[trigger] added@[j]).target@ == targets@[j]@,
                    decreases targets.len() - i,
                {
                    let t = match &targets[i] {
                        DeliveryTarget::Queue(a) => DeliveryTarget::Queue(a.clone()),
                        DeliveryTarget::Topic(a) => DeliveryTarget::Topic(a.clone()),
                        DeliveryTarget::EventBridge(d) => DeliveryTarget::EventBridge(d.clone()),
                    };
                    added.push(Notification {
                        target: t,
                        bucket: bucket.to_owned(),
                        region: region.clone(),
                        key: key.to_owned(),
                        size,
                        etag: etag.to_owned(),
                        event_name: event_name.to_owned(),
                    });
                    i = i + 1;
                }
                let ghost added_view = added@;
                assert(notification_targets(added_view) =~= targets@.map_values(|t: DeliveryTarget| t@));
                self.outbox.append(&mut added);
                assert(self.outbox@.subrange(0, before.len() as int) =~= before);
                assert(self.outbox@.subrange(before.len() as int, self.outbox@.len() as int) =~= added_view);
            },
        }
    }

    /// Replaces the notification configuration of a bucket.
    pub fn put_bucket_notification_configuration(&mut self, bucket: &str, config: BucketNotificationConfig) -> (r: Result<(), S3Error>)
        requires
            old(self).wf(),
        ensures
            final(self).wf(),
            final(self)@ == old(self)@,
            final(self).pending() == old(self).pending(),
            final(self).delivers() == old(self).delivers(),
            match r {
                Ok(()) => old(self)@.contains_key(bucket@) && final(self).configs() == old(self).configs().insert(bucket@, config),
                Err(e) => !old(self)@.contains_key(bucket@) && e.kind == S3ErrorKind::NoSuchBucket
                    && final(self).configs() == old(self).configs(),
            },
    {
        match self.buckets.remove(bucket) {
            None => Err(S3Error { kind: S3ErrorKind::NoSuchBucket, resource: resource(bucket) }),
            Some(b) => {
                let mut b = b;
                b.notifications = config;
                let name = b.info.name.clone();
                let ghost old_self = *old(self);
                let ghost bb = b;
                self.buckets.insert(name, b);
                proof {
                    assert(self.buckets@ == old_self.buckets@.insert(bucket@, bb));
                    old_self.lemma_views_after_insert(self, bucket@, bb);
                    assert(old_self@.insert(bucket@, bb.view()) =~= old_self@);
                }
                Ok(())
            },
        }
    }

    /// Creates an empty bucket in `region`.
    pub fn create_bucket(&mut self, bucket: &str, region: &str) -> (r: Result<(), S3Error>)
        requires
            old(self).wf(),
        ensures
            final(self).wf(),
            final(self).pending() == old(self).pending(),
            final(self).delivers() == old(self).delivers(),
            match r {
                Ok(()) => {
                    &&& !old(self)@.contains_key(bucket@)
                    &&& final(self)@ == old(self)@.insert(bucket@, BucketView {
                        name: bucket@,
                        region: region@,
                        creation_date: final(self)@[bucket@].creation_date,
                        objects: Map::empty(),
                        uploads: Map::empty(),
                    })
                    &&& final(self).configs()[bucket@].spec_is_empty()
                },
                Err(e) => old(self)@.contains_key(bucket@) && e.kind == S3ErrorKind::BucketAlreadyOwnedByYou
                    && final(self)@ == old(self)@ && final(self).configs() == old(self).configs(),
            },
    {
        if self.buckets.contains(bucket) {
            return Err(S3Error { kind: S3ErrorKind::BucketAlreadyOwnedByYou, resource: resource(bucket) });
        }
        let b = Bucket {
            info: BucketInfo { name: bucket.to_owned(), creation_date: now_rfc3339(), region: region.to_owned() },
            objects: Table::new(),
            uploads: Table::new(),
            notifications: BucketNotificationConfig {
                queue_configurations: Vec::new(),
                topic_configurations: Vec::new(),
                eventbridge_enabled: false,
            },
        };
        let ghost old_self = *old(self);
        let ghost bb = b;
        self.buckets.insert(bucket.to_owned(), b);
        proof {
            old_self.lemma_views_after_insert(self, bucket@, bb);
            assert(bb.view().objects =~= Map::<Seq<char>, ObjectView>::empty());
            assert(bb.view().uploads =~= Map::<Seq<char>, UploadView>::empty());
        }
        Ok(())
    }

    /// Deletes an empty bucket.
    pub fn delete_bucket(&mut self, bucket: &str) -> (r: Result<(), S3Error>)
        requires
            old(self).wf(),
        ensures
            final(self).wf(),
            final(self).pending() == old(self).pending(),
            final(self).delivers() == old(self).delivers(),
            match r {
                Ok(()) => old(self)@.contains_key(bucket@) && old(self)@[bucket@].objects.dom().len() == 0
                    && final(self)@ == old(self)@.remove(bucket@),
                Err(e) => final(self)@ == old(self)@ && final(self).configs() == old(self).configs() && (
                    if !old(self)@.contains_key(bucket@) {
                        e.kind == S3ErrorKind::NoSuchBucket
                    } else {
                        e.kind == S3ErrorKind::BucketNotEmpty && old(self)@[bucket@].objects.dom().len() > 0
                    }),
            },
    {
        match self.buckets.get(bucket) {
            None => {
                return Err(S3Error { kind: S3ErrorKind::NoSuchBucket, resource: resource(bucket) });
            },
            Some(b) => {
                proof { b.objects.lemma_wf(); }
                if b.objects.len() != 0 {
                    proof {
                        assert(self@[bucket@].objects.dom() =~= b.objects@.dom());
                    }
                    return Err(S3Error { kind: S3ErrorKind::BucketNotEmpty, resource: resource(bucket) });
                }
                proof {
                    assert(self@[bucket@].objects.dom() =~= b.objects@.dom());
                }
            },
        }
        let ghost old_self = *old(self);
        self.buckets.remove(bucket);
        assert(self@ =~= old_self@.remove(bucket@));
        Ok(())
    }

    /// The identity of a bucket.
    pub fn head_bucket(&self, bucket: &str) -> (r: Result<BucketInfo, S3Error>)
        requires
            self.wf(),
        ensures
            match r {
                Ok(info) => self@.contains_key(bucket@) && info.name@ == self@[bucket@].name
                    && info.region@ == self@[bucket@].region && info.creation_date@ == self@[bucket@].creation_date,
                Err(e) => !self@.contains_key(bucket@) && e.kind == S3ErrorKind::NoSuchBucket,
            },
    {
        match self.buckets.get(bucket) {
            None => Err(S3Error { kind: S3ErrorKind::NoSuchBucket, resource: resource(bucket) }),
            Some(b) => Ok(b.info.copy()),
        }
    }

    /// The identities of all buckets, by name.
    pub fn list_buckets(&self) -> (r: Vec<BucketInfo>)
        requires
            self.wf(),
        ensures
            buckets_listed(*self, r@),
    {
        proof { self.buckets.lemma_wf(); }
        let n = self.buckets.len();
        let mut r: Vec<BucketInfo> = Vec::new();
        let mut i: usize = 0;
        while i < n
            invariant
                self.wf(),
                n == self.buckets.keys().len(),
                i <= n,
                r@.len() == i,
                forall|j: int| 0 <= j < i ==> #[trigger] r@[j] == self.buckets.vals()[j].info,
            decreases n - i,
        {
            let (_, b) = self.buckets.entry(i);
            r.push(b.info.copy());
            i = i + 1;
        }
        proof {
            assert forall|j: int| 0 <= j < r@.len() implies {
                &&& #[trigger] r@[j].name@ == self.buckets.keys()[j]
                &&& self@.contains_key(r@[j].name@)
                &&& r@[j].region@ == self@[r@[j].name@].region
                &&& r@[j].creation_date@ == self@[r@[j].name@].creation_date
            } by {
                let k = self.buckets.keys()[j];
                assert(self.buckets@.contains_key(k));
                assert(self.buckets@[k] == self.buckets.vals()[j]);
            }
            assert forall|a: int, b: int| 0 <= a < b < r@.len() implies seq_lt(#[trigger] r@[a].name@, #[trigger] r@[b].name@) by {
                assert(r@[a].name@ == self.buckets.keys()[a]);
                assert(r@[b].name@ == self.buckets.keys()[b]);
            }
            assert forall|k: Seq<char>| #[trigger] self@.contains_key(k) implies exists|i: int| 0 <= i < r@.len() && r@[i].name@ == k by {
                assert(self.buckets@.contains_key(k));
                let i = choose|i: int| 0 <= i < self.buckets.keys().len() && self.buckets.keys()[i] == k;
                assert(r@[i].name@ == self.buckets.keys()[i]);
            }
        }
        r
    }

    /// The notification configuration of a bucket.
    pub fn get_bucket_notification_configuration(&self, bucket: &str) -> (r: Result<&BucketNotificationConfig, S3Error>)
        requires
            self.wf(),
        ensures
            match r {
                Ok(c) => self@.contains_key(bucket@) && *c == self.configs()[bucket@],
                Err(e) => !self@.contains_key(bucket@) && e.kind == S3ErrorKind::NoSuchBucket,
            },
    {
        match self.buckets.get(bucket) {
            None => Err(S3Error { kind: S3ErrorKind::NoSuchBucket, resource: resource(bucket) }),
            Some(b) => Ok(&b.notifications),
        }
    }

    /// The destinations an event on `bucket` is sent to now.
    pub open spec fn event_targets_for(&self, bucket: Seq<char>, key: Seq<char>, event_name: Seq<char>) -> Seq<TargetView> {
        if self.delivers() && self@.contains_key(bucket) {
            event_targets(self.configs()[bucket], key, event_name)
        } else {
            Seq::empty()
        }
    }

    /// Puts a bucket taken out of the table back under its name.
    fn put_back(&mut self, b: Bucket)
        requires
            old(self).wf(),
            b.wf(),
        ensures
            final(self).wf(),
            final(self).buckets@ == old(self).buckets@.insert(b.info.name@, b),
            final(self).outbox@ == old(self).outbox@,
            final(self).notifications_enabled == old(self).notifications_enabled,
    {
        let name = b.info.name.clone();
        self.buckets.insert(name, b);
    }

    /// Stores an object, replacing any object under the same key, and raises an
    /// `s3:ObjectCreated:Put` event.
    pub fn put_object(
        &mut self,
        bucket: &str,
        key: &str,
        data: Vec<u8>,
        content_type: Option<String>,
        user_metadata: Vec<(String, String)>,
    ) -> (r: Result<ObjectMetadata, S3Error>)
        requires
            old(self).wf(),
        ensures
            final(self).wf(),
            final(self).delivers() == old(self).delivers(),
            final(self).configs() == old(self).configs(),
            match r {
                Ok(m) => {
                    &&& old(self)@.contains_key(bucket@)
                    &&& m@ == (MetaView {
                        key: key@,
                        size: data@.len() as u64,
                        etag: etag_of(data@),
                        last_modified: m@.last_modified,
                        content_type: content_type_or_default(opt_view(content_type)),
                        user_metadata: pairs_view(user_metadata@),
                    })
                    &&& final(self)@ == old(self)@.insert(bucket@, with_object(old(self)@[bucket@], key@, object_view(m@, data@)))
                    &&& raised(old(self).pending(), final(self).pending(), old(self).event_targets_for(bucket@, key@, "s3:ObjectCreated:Put"@))
                },
                Err(e) => !old(self)@.contains_key(bucket@) && e.kind == S3ErrorKind::NoSuchBucket
                    && final(self)@ == old(self)@ && final(self).pending() == old(self).pending(),
            },
    {
        let ghost old_self = *old(self);
        let mut b = match self.buckets.remove(bucket) {
            None => {
                return Err(S3Error { kind: S3ErrorKind::NoSuchBucket, resource: resource(bucket) });
            },
            Some(b) => b,
        };
        let ghost old_b = b;
        let etag = calculate_etag(data.as_slice());
        let size = data.len() as u64;
        let ct = match content_type {
            Some(c) => c,
            None => "application/octet-stream".to_owned(),
        };
        let meta = ObjectMetadata {
            key: key.to_owned(),
            size,
            etag: etag.clone(),
            last_modified: now_rfc3339(),
            content_type: ct,
            user_metadata,
        };
        let result = meta.copy();
        let ghost so = StoredObject { metadata: meta, data };
        b.objects.insert(key.to_owned(), StoredObject { metadata: meta, data });
        proof {
            lemma_map_values_insert(old_b.objects@, key@, so, |o: StoredObject| o.view());
            assert(b.view() == with_object(old_b.view(), key@, object_view(result@, data@)));
        }
        let ghost mid = *self;
        self.put_back(b);
        proof {
            assert(old_self.buckets@.remove(bucket@).insert(bucket@, b) =~= old_self.buckets@.insert(bucket@, b));
            old_self.lemma_views_after_insert(self, bucket@, b);
            assert(old_self.configs().insert(bucket@, b.notifications) =~= old_self.configs());
        }
        self.dispatch_event(bucket, key, size, etag.as_str(), "s3:ObjectCreated:Put");
        Ok(result)
    }

    /// An object's metadata and bytes, or the bytes of `range` with the
    /// `Content-Range` value that describes them.
    pub fn get_object(&self, bucket: &str, key: &str, range: Option<ByteRange>) -> (r: Result<(ObjectMetadata, Vec<u8>, Option<String>), S3Error>)
        requires
            self.wf(),
            range_is_sane(range),
        ensures
            match r {
                Ok((m, d, cr)) => {
                    &&& self@.contains_key(bucket@)
                    &&& self@[bucket@].objects.contains_key(key@)
                    &&& m@ == self@[bucket@].objects[key@].meta
                    &&& match range {
                        None => d@ == self@[bucket@].objects[key@].data && cr.is_none(),
                        Some(rg) => {
                            let total = m.size;
                            let end = range_end(rg, total);
                            &&& rg.start < total
                            &&& d@ == self@[bucket@].objects[key@].data.subrange(rg.start as int, end + 1)
                            &&& cr matches Some(c) && c@ == content_range_text(rg.start, end, total)
                        },
                    }
                },
                Err(e) => if !self@.contains_key(bucket@) {
                    e.kind == S3ErrorKind::NoSuchBucket
                } else if !self@[bucket@].objects.contains_key(key@) {
                    e.kind == S3ErrorKind::NoSuchKey
                } else {
                    e.kind == S3ErrorKind::InvalidRange && (range matches Some(rg)
                        && rg.start >= self@[bucket@].objects[key@].meta.size)
                },
            },
    {
        let b = match self.buckets.get(bucket) {
            None => {
                return Err(S3Error { kind: S3ErrorKind::NoSuchBucket, resource: resource(bucket) });
            },
            Some(b) => b,
        };
        let obj = match b.objects.get(key) {
            None => {
                return Err(S3Error { kind: S3ErrorKind::NoSuchKey, resource: None });
            },
            Some(o) => o,
        };
        assert(self.buckets@.contains_key(bucket@));
        assert(b.wf());
        assert(b.objects@.contains_key(key@));
        assert(obj.metadata.size == obj.data@.len());
        assert(self@[bucket@].objects[key@] == obj.view());
        assert(self@.contains_key(bucket@));
        assert(self@[bucket@].objects.contains_key(key@));
        match range {
            None => {
                let d = copy_bytes(&obj.data, 0, obj.data.len());
                assert(d@ =~= obj.data@);
                let m = obj.metadata.copy();
                assert(m@ == self@[bucket@].objects[key@].meta);
                assert(d@ == self@[bucket@].objects[key@].data);
                Ok((m, d, None))
            },
            Some(rg) => {
                let total = obj.metadata.size;
                if rg.start >= total {
                    return Err(S3Error { kind: S3ErrorKind::InvalidRange, resource: resource(key) });
                }
                let last = total - 1;
                let end = match rg.end {
                    Some(e) => if e < last { e } else { last },
                    None => last,
                };
                assert(rg.start < obj.data@.len());
                assert(end + 1 <= obj.data@.len());
                assert(rg.start <= end + 1);
                let n = obj.data.len();
                let s0 = rg.start as usize;
                let s1 = (end + 1) as usize;
                assert(s0 == rg.start && s1 == end + 1);
                let slice = copy_bytes(&obj.data, s0, s1);
                let mut cr = "bytes ".to_owned();
                append_u64(&mut cr, rg.start);
                push_char(&mut cr, '-');
                append_u64(&mut cr, end);
                push_char(&mut cr, '/');
                append_u64(&mut cr, total);
                assert(cr@ =~= content_range_text(rg.start, end, total));
                Ok((obj.metadata.copy(), slice, Some(cr)))
            },
        }
    }

    /// The metadata of an object.
    pub fn head_object(&self, bucket: &str, key: &str) -> (r: Result<ObjectMetadata, S3Error>)
        requires
            self.wf(),
        ensures
            match r {
                Ok(m) => self@.contains_key(bucket@) && self@[bucket@].objects.contains_key(key@)
                    && m@ == self@[bucket@].objects[key@].meta,
                Err(e) => if !self@.contains_key(bucket@) {
                    e.kind == S3ErrorKind::NoSuchBucket
                } else {
                    !self@[bucket@].objects.contains_key(key@) && e.kind == S3ErrorKind::NoSuchKey
                },
            },
    {
        let b = match self.buckets.get(bucket) {
            None => {
                return Err(S3Error { kind: S3ErrorKind::NoSuchBucket, resource: resource(bucket) });
            },
            Some(b) => b,
        };
        match b.objects.get(key) {
            None => Err(S3Error { kind: S3ErrorKind::NoSuchKey, resource: None }),
            Some(o) => {
                let m = o.metadata.copy();
                assert(self@[bucket@].objects[key@] == o.view());
                Ok(m)
            },
        }
    }

    /// Removes the object under `key` (nothing when there is none) and raises an
    /// `s3:ObjectRemoved:Delete` event when an object was removed.
    pub fn delete_object(&mut self, bucket: &str, key: &str) -> (r: Result<(), S3Error>)
        requires
            old(self).wf(),
        ensures
            final(self).wf(),
            final(self).delivers() == old(self).delivers(),
            final(self).configs() == old(self).configs(),
            match r {
                Ok(()) => {
                    &&& old(self)@.contains_key(bucket@)
                    &&& final(self)@ == old(self)@.insert(bucket@, without_object(old(self)@[bucket@], key@))
                    &&& raised(old(self).pending(), final(self).pending(),
                        if old(self)@[bucket@].objects.contains_key(key@) {
                            old(self).event_targets_for(bucket@, key@, "s3:ObjectRemoved:Delete"@)
                        } else {
                            Seq::empty()
                        })
                },
                Err(e) => !old(self)@.contains_key(bucket@) && e.kind == S3ErrorKind::NoSuchBucket
                    && final(self)@ == old(self)@ && final(self).pending() == old(self).pending(),
            },
    {
        let ghost old_self = *old(self);
        let mut b = match self.buckets.remove(bucket) {
            None => {
                return Err(S3Error { kind: S3ErrorKind::NoSuchBucket, resource: resource(bucket) });
            },
            Some(b) => b,
        };
        let ghost old_b = b;
        let removed = b.objects.remove(key);
        proof {
            lemma_map_values_remove(old_b.objects@, key@, |o: StoredObject| o.view());
            assert(b.view() == without_object(old_b.view(), key@));
        }
        self.put_back(b);
        proof {
            assert(old_self.buckets@.remove(bucket@).insert(bucket@, b) =~= old_self.buckets@.insert(bucket@, b));
            old_self.lemma_views_after_insert(self, bucket@, b);
            assert(old_self.configs().insert(bucket@, b.notifications) =~= old_self.configs());
        }
        match removed {
            Some(obj) => {
                self.dispatch_event(bucket, key, obj.metadata.size, obj.metadata.etag.as_str(), "s3:ObjectRemoved:Delete");
            },
            None => {
                assert(self.outbox@.subrange(0, self.outbox@.len() as int) =~= self.outbox@);
                assert(self.outbox@.subrange(self.outbox@.len() as int, self.outbox@.len() as int) =~= Seq::<Notification>::empty());
                assert(notification_targets(Seq::<Notification>::empty()) =~= Seq::<TargetView>::empty());
            },
        }
        Ok(())
    }

    /// Copies an object to another key, possibly in another bucket. The copy
    /// raises an `s3:ObjectCreated:Put` event and then an `s3:ObjectCreated:Copy` event.
    pub fn copy_object(&mut self, src_bucket: &str, src_key: &str, dest_bucket: &str, dest_key: &str) -> (r: Result<ObjectMetadata, S3Error>)
        requires
            old(self).wf(),
        ensures
            final(self).wf(),
            final(self).delivers() == old(self).delivers(),
            final(self).configs() == old(self).configs(),
            match r {
                Ok(m) => {
                    let src = old(self)@[src_bucket@].objects[src_key@];
                    &&& old(self)@.contains_key(src_bucket@)
                    &&& old(self)@[src_bucket@].objects.contains_key(src_key@)
                    &&& old(self)@.contains_key(dest_bucket@)
                    &&& m@ == (MetaView {
                        key: dest_key@,
                        size: src.data.len() as u64,
                        etag: etag_of(src.data),
                        last_modified: m@.last_modified,
                        content_type: src.meta.content_type,
                        user_metadata: src.meta.user_metadata,
                    })
                    &&& final(self)@ == old(self)@.insert(dest_bucket@, with_object(old(self)@[dest_bucket@], dest_key@, object_view(m@, src.data)))
                    &&& raised(old(self).pending(), final(self).pending(),
                        old(self).event_targets_for(dest_bucket@, dest_key@, "s3:ObjectCreated:Put"@)
                        + old(self).event_targets_for(dest_bucket@, dest_key@, "s3:ObjectCreated:Copy"@))
                },
                Err(e) => final(self)@ == old(self)@ && final(self).pending() == old(self).pending() && (
                    if !old(self)@.contains_key(src_bucket@) {
                        e.kind == S3ErrorKind::NoSuchBucket
                    } else if !old(self)@[src_bucket@].objects.contains_key(src_key@) {
                        e.kind == S3ErrorKind::NoSuchKey
                    } else {
                        !old(self)@.contains_key(dest_bucket@) && e.kind == S3ErrorKind::NoSuchBucket
                    }),
            },
    {
        let (src_meta, data, _) = match self.get_object(src_bucket, src_key, None) {
            Ok(t) => t,
            Err(e) => {
                return Err(e);
            },
        };
        let ghost mid = *self;
        let ghost data_view = data@;
        let res = match self.put_object(dest_bucket, dest_key, data, Some(src_meta.content_type), src_meta.user_metadata) {
            Ok(m) => m,
            Err(e) => {
                return Err(e);
            },
        };
        let ghost after_put = *self;
        self.dispatch_event(dest_bucket, dest_key, res.size, res.etag.as_str(), "s3:ObjectCreated:Copy");
        proof {
            let p0 = mid.pending();
            let p1 = after_put.pending();
            let p2 = self.pending();
            assert(p2.subrange(0, p0.len() as int) =~= p1.subrange(0, p0.len() as int));
            assert(p2.subrange(p0.len() as int, p2.len() as int) =~= p1.subrange(p0.len() as int, p1.len() as int) + p2.subrange(p1.len() as int, p2.len() as int));
            assert(notification_targets(p1.subrange(p0.len() as int, p1.len() as int) + p2.subrange(p1.len() as int, p2.len() as int))
                =~= notification_targets(p1.subrange(p0.len() as int, p1.len() as int)) + notification_targets(p2.subrange(p1.len() as int, p2.len() as int)));
        }
        Ok(res)
    }

    /// Removes the objects under `keys`; every key is reported deleted. An
    /// `s3:ObjectRemoved:Delete` event is raised for each object removed, in the
    /// order of `keys`, after all removals.
    pub fn delete_objects(&mut self, bucket: &str, keys: Vec<String>, quiet: bool) -> (r: Result<DeleteObjectsResult, S3Error>)
        requires
            old(self).wf(),
        ensures
            final(self).wf(),
            final(self).delivers() == old(self).delivers(),
            final(self).configs() == old(self).configs(),
            match r {
                Ok(res) => {
                    &&& old(self)@.contains_key(bucket@)
                    &&& views(res.deleted@) == views(keys@)
                    &&& res.errors@.len() == 0
                    &&& final(self)@ == old(self)@.insert(bucket@, BucketView {
                        objects: old(self)@[bucket@].objects.remove_keys(views(keys@).to_set()),
                        ..old(self)@[bucket@]
                    })
                    &&& raised(old(self).pending(), final(self).pending(),
                        if old(self).delivers() {
                            targets_for_keys(old(self).configs()[bucket@],
                                removed_keys(old(self)@[bucket@].objects.dom(), views(keys@)), "s3:ObjectRemoved:Delete"@)
                        } else {
                            Seq::empty()
                        })
                },
                Err(e) => !old(self)@.contains_key(bucket@) && e.kind == S3ErrorKind::NoSuchBucket
                    && final(self)@ == old(self)@ && final(self).pending() == old(self).pending(),
            },
    {
        let ghost old_self = *old(self);
        let mut b = match self.buckets.remove(bucket) {
            None => {
                return Err(S3Error { kind: S3ErrorKind::NoSuchBucket, resource: resource(bucket) });
            },
            Some(b) => b,
        };
        let ghost old_b = b;
        let ghost present = old_b.objects@.dom();
        let mut res = DeleteObjectsResult { deleted: Vec::new(), errors: Vec::new() };
        let mut gone: Vec<(String, u64, String)> = Vec::new();
        let mut i: usize = 0;
        while i < keys.len()
            invariant
                i <= keys@.len(),
                b.wf(),
                b.info == old_b.info,
                b.notifications == old_b.notifications,
                b.uploads == old_b.uploads,
                present == old_b.objects@.dom(),
                b.objects@ == old_b.objects@.remove_keys(views(keys@.subrange(0, i as int)).to_set()),
                views(res.deleted@) == views(keys@.subrange(0, i as int)),
                res.errors@.len() == 0,
                gone@.map_values(|g: (String, u64, String)| g.0@) == removed_keys(present, views(keys@.subrange(0, i as int))),
            decreases keys.len() - i,
        {
            let k = &keys[i];
            let ghost ks = views(keys@.subrange(0, i as int));
            let ghost ks1 = views(keys@.subrange(0, i + 1));
            assert(ks1 =~= ks.push(k@));
            assert(ks1.drop_last() =~= ks);
            let ghost before_gone = gone@.map_values(|g: (String, u64, String)| g.0@);
            let ghost before_objs = b.objects@;
            match b.objects.remove(k.as_str()) {
                Some(obj) => {
                    proof {
                        assert(present.contains(k@));
                        if ks.contains(k@) {
                            let j = choose|j: int| 0 <= j < ks.len() && ks[j] == k@;
                            assert(ks.to_set().contains(k@));
                        }
                    }
                    gone.push((k.clone(), obj.metadata.size, obj.metadata.etag));
                    assert(gone@.map_values(|g: (String, u64, String)| g.0@) =~= before_gone.push(k@));
                },
                None => {
                    proof {
                        if present.contains(k@) && !ks.contains(k@) {
                            assert(!ks.to_set().contains(k@));
                            assert(before_objs.contains_key(k@));
                        }
                    }
                },
            }
            res.deleted.push(k.clone());
            assert(views(res.deleted@) =~= ks1);
            proof {
                assert forall|x: Seq<char>| ks1.to_set().contains(x) == ks.to_set().insert(k@).contains(x) by {
                    if ks1.contains(x) {
                        let w = choose|w: int| 0 <= w < ks1.len() && ks1[w] == x;
                        if w < ks.len() {
                            assert(ks[w] == x);
                        }
                    }
                    if ks.contains(x) {
                        let w = choose|w: int| 0 <= w < ks.len() && ks[w] == x;
                        assert(ks1[w] == x);
                    }
                    if x == k@ {
                        assert(ks1[ks.len() as int] == x);
                    }
                }
                assert(ks1.to_set() =~= ks.to_set().insert(k@));
                assert(old_b.objects@.remove_keys(ks.to_set()).remove(k@) =~= old_b.objects@.remove_keys(ks1.to_set()));
            }
            assert(b.objects@ =~= old_b.objects@.remove_keys(ks1.to_set()));
            i = i + 1;
        }
        assert(keys@.subrange(0, keys@.len() as int) =~= keys@);
        proof {
            lemma_map_values_remove_keys(old_b.objects@, views(keys@).to_set(), |o: StoredObject| o.view());
        }
        self.put_back(b);
        proof {
            assert(old_self.buckets@.remove(bucket@).insert(bucket@, b) =~= old_self.buckets@.insert(bucket@, b));
            old_self.lemma_views_after_insert(self, bucket@, b);
            assert(old_self.configs().insert(bucket@, b.notifications) =~= old_self.configs());
            lemma_raised_nothing(self.outbox@);
        }
        let ghost p0 = self.outbox@;
        let ghost gone_keys = gone@.map_values(|g: (String, u64, String)| g.0@);
        let mut j: usize = 0;
        while j < gone.len()
            invariant
                self.wf(),
                j <= gone@.len(),
                self@ == old_self@.insert(bucket@, b.view()),
                self.configs() == old_self.configs(),
                self.delivers() == old_self.delivers(),
                self@.contains_key(bucket@),
                gone_keys == gone@.map_values(|g: (String, u64, String)| g.0@),
                raised(p0, self.pending(),
                    if old_self.delivers() {
                        targets_for_keys(old_self.configs()[bucket@], gone_keys.subrange(0, j as int), "s3:ObjectRemoved:Delete"@)
                    } else {
                        Seq::empty()
                    }),
            decreases gone.len() - j,
        {
            let ghost p1 = self.outbox@;
            let g = &gone[j];
            self.dispatch_event(bucket, g.0.as_str(), g.1, g.2.as_str(), "s3:ObjectRemoved:Delete");
            proof {
                let ks = gone_keys.subrange(0, j as int);
                let ks1 = gone_keys.subrange(0, j + 1);
                assert(ks1.drop_last() =~= ks);
                assert(ks1.last() == g.0@);
                let t2 = if old_self.delivers() {
                    event_targets(old_self.configs()[bucket@], g.0@, "s3:ObjectRemoved:Delete"@)
                } else {
                    Seq::empty()
                };
                let t1 = if old_self.delivers() {
                    targets_for_keys(old_self.configs()[bucket@], ks, "s3:ObjectRemoved:Delete"@)
                } else {
                    Seq::empty()
                };
                lemma_raised_concat(p0, p1, self.outbox@, t1, t2);
                if !old_self.delivers() {
                    assert(t1 + t2 =~= Seq::<TargetView>::empty());
                }
            }
            j = j + 1;
        }
        assert(gone_keys.subrange(0, gone@.len() as int) =~= gone_keys);
        assert(old_self@[bucket@].objects.dom() =~= present);
        assert(gone_keys == removed_keys(present, views(keys@)));
        assert(b.view() == (BucketView { objects: old_self@[bucket@].objects.remove_keys(views(keys@).to_set()), ..old_self@[bucket@] }));
        Ok(res)
    }

    /// The metadata of a bucket's objects, in key order.
    pub closed spec fn listing(&self, bucket: Seq<char>) -> Seq<MetaView> {
        self.buckets@[bucket].objects.vals().map_values(|o: StoredObject| o.metadata@)
    }

    /// The listing of a bucket holds each of its objects once, in ascending key order.
    pub proof fn lemma_listing(&self, bucket: Seq<char>)
        requires
            self.wf(),
            self@.contains_key(bucket),
        ensures
            self.listing(bucket).len() == self@[bucket].objects.dom().len(),
            forall|i: int| 0 <= i < self.listing(bucket).len() ==> {
                &&& #[trigger] self@[bucket].objects.contains_key(self.listing(bucket)[i].key)
                &&& self@[bucket].objects[self.listing(bucket)[i].key].meta == self.listing(bucket)[i]
            },
            forall|k: Seq<char>| #[trigger] self@[bucket].objects.contains_key(k) ==> exists|i: int|
                0 <= i < self.listing(bucket).len() && self.listing(bucket)[i].key == k,
            forall|i: int, j: int| 0 <= i < j < self.listing(bucket).len() ==> seq_lt(
                #[trigger] self.listing(bucket)[i].key,
                #[trigger] self.listing(bucket)[j].key,
            ),
    {
        let b = self.buckets@[bucket];
        assert(b.wf());
        b.objects.lemma_wf();
        let l = self.listing(bucket);
        assert(self@[bucket].objects.dom() =~= b.objects@.dom());
        assert forall|i: int| 0 <= i < l.len() implies l[i].key == b.objects.keys()[i] by {
            assert(b.objects@.contains_key(b.objects.keys()[i]));
        }
        assert forall|k: Seq<char>| #[trigger] self@[bucket].objects.contains_key(k) implies exists|i: int|
            0 <= i < l.len() && l[i].key == k by {
            assert(b.objects@.contains_key(k));
            let i = choose|i: int| 0 <= i < b.objects.keys().len() && b.objects.keys()[i] == k;
            assert(l[i].key == b.objects.keys()[i]);
        }
        assert forall|i: int, j: int| 0 <= i < j < l.len() implies seq_lt(#[trigger] l[i].key, #[trigger] l[j].key) by {
            assert(l[i].key == b.objects.keys()[i]);
            assert(l[j].key == b.objects.keys()[j]);
        }
        assert forall|i: int| 0 <= i < l.len() implies {
            &&& #[trigger] self@[bucket].objects.contains_key(l[i].key)
            &&& self@[bucket].objects[l[i].key].meta == l[i]
        } by {
            assert(l[i].key == b.objects.keys()[i]);
            assert(b.objects@.contains_key(b.objects.keys()[i]));
        }
    }

    /// Lists the objects of a bucket whose keys start with `prefix`, in key order,
    /// from after `continuation_token` (or else after `start_after`), rolling keys
    /// up into common prefixes at `delimiter` and listing at most `max_keys` objects.
    #[verifier::rlimit(50)]
    pub fn list_objects_v2(
        &self,
        bucket: &str,
        prefix: Option<&str>,
        delimiter: Option<&str>,
        max_keys: usize,
        continuation_token: Option<&str>,
        start_after: Option<&str>,
    ) -> (r: Result<ListObjectsV2Result, S3Error>)
        requires
            self.wf(),
        ensures
            listed_v2(
                *self,
                bucket@,
                opt_view_str(prefix),
                opt_view_str(delimiter),
                max_keys,
                opt_view_str(continuation_token),
                opt_view_str(start_after),
                r,
            ),
    {
        let b = match self.buckets.get(bucket) {
            None => {
                return Err(S3Error { kind: S3ErrorKind::NoSuchBucket, resource: resource(bucket) });
            },
            Some(b) => b,
        };
        let ghost listing = self.listing(bucket@);
        let pfx: &str = match prefix {
            Some(p) => p,
            None => "",
        };
        let ghost pfx_v = match prefix { Some(p) => p@, None => Seq::<char>::empty() };
        proof {
            reveal_strlit("");
            assert(pfx@ == pfx_v);
            b.objects.lemma_wf();
        }
        // The objects under the prefix, in key order.
        let n = b.objects.len();
        let mut all: Vec<ObjectMetadata> = Vec::new();
        let mut i: usize = 0;
        while i < n
            invariant
                self.wf(),
                self.buckets@.contains_key(bucket@),
                *b == self.buckets@[bucket@],
                n == b.objects.keys().len(),
                listing == self.listing(bucket@),
                listing.len() == n,
                pfx@ == pfx_v,
                i <= n,
                metas_view(all@) == matching(listing.subrange(0, i as int), pfx_v),
            decreases n - i,
        {
            let (_, o) = b.objects.entry(i);
            assert(listing[i as int] == o.metadata@);
            let ghost before = metas_view(all@);
            assert(listing.subrange(0, i + 1).drop_last() =~= listing.subrange(0, i as int));
            if starts_with(o.metadata.key.as_str(), pfx) {
                all.push(o.metadata.copy());
                assert(metas_view(all@) =~= before.push(o.metadata@));
            }
            i = i + 1;
        }
        assert(listing.subrange(0, n as int) =~= listing);
        let ghost items = metas_view(all@);
        // Where the listing starts.
        let token: Option<&str> = match continuation_token {
            Some(t) => Some(t),
            None => start_after,
        };
        let mut start: usize = 0;
        match token {
            Some(t) => {
                assert(items.subrange(0, items.len() as int) =~= items);
                let mut found = false;
                while start < all.len() && !found
                    invariant
                        items == metas_view(all@),
                        start <= items.len(),
                        !found ==> first_after(items, t@) == start + first_after(items.subrange(start as int, items.len() as int), t@),
                        found ==> first_after(items, t@) == start,
                    decreases all.len() - start + (if found { 0int } else { 1int }),
                {
                    let ghost rest = items.subrange(start as int, items.len() as int);
                    assert(rest[0] == all@[start as int]@);
                    if str_lt(t, all[start].key.as_str()) {
                        found = true;
                    } else {
                        assert(rest.drop_first() =~= items.subrange(start + 1, items.len() as int));
                        start = start + 1;
                    }
                }
                assert(items.subrange(items.len() as int, items.len() as int).len() == 0);
                assert(first_after(items, t@) == start);
            },
            None => {},
        }
        proof { lemma_matching_prefix(listing, pfx_v); }
        let ghost start_spec = match continuation_token {
            Some(t) => first_after(items, t@),
            None => match start_after {
                Some(sa) => first_after(items, sa@),
                None => 0,
            },
        };
        assert(start == start_spec);
        // The scan.
        let delim_chars: Option<Vec<char>> = match delimiter {
            Some(d) => Some(to_chars(d)),
            None => None,
        };
        let ghost delim = match delimiter { Some(d) => Some(d@), None => None::<Seq<char>> };
        let pfx_len = to_chars(pfx).len();
        let ghost init = ListScan { contents: Seq::empty(), prefixes: Set::empty(), truncated: false, next: None };
        let mut contents: Vec<ObjectMetadata> = Vec::new();
        let mut prefixes: Table<bool> = Table::new();
        let mut truncated = false;
        let mut next_token: Option<String> = None;
        let mut k: usize = start;
        assert(metas_view(contents@) =~= Seq::<MetaView>::empty());
        assert(prefixes@.dom() =~= Set::<Seq<char>>::empty());
        while k < all.len() && !truncated
            invariant
                items == metas_view(all@),
                start <= k <= items.len(),
                !truncated ==> k < items.len() || k == items.len(),
                pfx_len == pfx_v.len(),
                forall|m: int| 0 <= m < items.len() ==> is_prefix(pfx_v, #[trigger] items[m].key),
                match delim_chars { Some(v) => delim == Some(v@), None => delim.is_none() },
                prefixes.wf(),
                !truncated ==> next_token.is_none(),
                !truncated ==> scan(items, start as int, pfx_len as int, delim, max_keys as nat, init) == scan(items, k as int, pfx_len as int, delim, max_keys as nat,
                    ListScan { contents: metas_view(contents@), prefixes: prefixes@.dom(), truncated: false, next: None }),
                truncated ==> scan(items, start as int, pfx_len as int, delim, max_keys as nat, init) == (ListScan {
                    contents: metas_view(contents@), prefixes: prefixes@.dom(), truncated: true, next: opt_view(next_token) }),
            decreases all.len() - k,
        {
            let item = &all[k];
            let ghost st = ListScan { contents: metas_view(contents@), prefixes: prefixes@.dom(), truncated: false, next: None };
            let key_chars = to_chars(item.key.as_str());
            let rolled: Option<String> = match &delim_chars {
                Some(d) => {
                    assert(is_prefix(pfx_v, items[k as int].key));
                    match find_sub_exec(&key_chars, pfx_len, d) {
                        Some(j) => {
                            proof { lemma_find_sub_bound(key_chars@.subrange(pfx_len as int, key_chars@.len() as int), d@); }
                            let kl = key_chars.len();
                            assert(pfx_len + j + d@.len() <= kl);
                            let end = pfx_len + j + d.len();
                            Some(chars_to_string(key_chars.as_slice(), 0, end))
                        },
                        None => None,
                    }
                },
                None => None,
            };
            assert(opt_view(rolled) == rolled_prefix(items[k as int].key, pfx_len as int, delim));
            match rolled {
                Some(c) => {
                    let ghost cv = c@;
                    prefixes.insert(c, true);
                    assert(prefixes@.dom() =~= st.prefixes.insert(cv));
                },
                None => {
                    if contents.len() >= max_keys {
                        truncated = true;
                        next_token = if contents.len() == 0 {
                            None
                        } else {
                            Some(contents[contents.len() - 1].key.clone())
                        };
                    } else {
                        let ghost before = metas_view(contents@);
                        contents.push(item.copy());
                        assert(metas_view(contents@) =~= before.push(items[k as int]));
                    }
                }
            }
            k = k + 1;
        }
        assert(!truncated ==> k == items.len());
        let ghost st_final = scan(items, start as int, pfx_len as int, delim, max_keys as nat, init);
        assert(st_final.prefixes == prefixes@.dom());
        proof {
            let pfx2 = match prefix { Some(p) => p@, None => Seq::<char>::empty() };
            let items2 = matching(self.listing(bucket@), pfx2);
            let start2 = match continuation_token {
                Some(t) => first_after(items2, t@),
                None => match start_after {
                    Some(sa) => first_after(items2, sa@),
                    None => 0,
                },
            };
            let delim2 = match delimiter { Some(d) => Some(d@), None => None };
            assert(items2 == items);
            assert(start2 == start);
            assert(delim2 == delim);
            assert(pfx2.len() == pfx_len);
            let st2 = scan(items2, start2 as int, pfx2.len() as int, delim2, max_keys as nat,
                ListScan { contents: Seq::empty(), prefixes: Set::empty(), truncated: false, next: None });
            assert(st2 == st_final);
        }
        proof { prefixes.lemma_wf(); }
        let common = prefixes.key_list();
        proof {
            assert forall|c: Seq<char>| #[trigger] st_final.prefixes.contains(c) implies views(common@).contains(c) by {
                assert(prefixes@.contains_key(c));
                let i = choose|i: int| 0 <= i < prefixes.keys().len() && prefixes.keys()[i] == c;
                assert(common@[i]@ == c);
                assert(views(common@)[i] == c);
            }
        }
        let key_count = contents.len();
        let res = ListObjectsV2Result {
            is_truncated: truncated,
            contents,
            name: bucket.to_owned(),
            prefix: pfx.to_owned(),
            delimiter: match delimiter { Some(d) => Some(d.to_owned()), None => None },
            max_keys,
            common_prefixes: common,
            key_count,
            continuation_token: match continuation_token { Some(t) => Some(t.to_owned()), None => None },
            next_continuation_token: next_token,
            start_after: match start_after { Some(t) => Some(t.to_owned()), None => None },
        };
        Ok(res)
    }

    /// Starts a multipart upload of `key`, under a fresh random upload id.
    pub fn create_multipart_upload(
        &mut self,
        bucket: &str,
        key: &str,
        content_type: Option<String>,
        metadata: Vec<(String, String)>,
    ) -> (r: Result<String, S3Error>)
        requires
            old(self).wf(),
        ensures
            final(self).wf(),
            final(self).delivers() == old(self).delivers(),
            final(self).configs() == old(self).configs(),
            final(self).pending() == old(self).pending(),
            match r {
                Ok(id) => {
                    &&& old(self)@.contains_key(bucket@)
                    &&& id@.len() == 36
                    &&& final(self)@ == old(self)@.insert(bucket@, with_upload(old(self)@[bucket@], id@, UploadView {
                        key: key@,
                        content_type: opt_view(content_type),
                        user_metadata: pairs_view(metadata@),
                        parts: Map::empty(),
                    }))
                },
                Err(e) => !old(self)@.contains_key(bucket@) && e.kind == S3ErrorKind::NoSuchBucket && final(self)@ == old(self)@,
            },
    {
        let ghost old_self = *old(self);
        let mut b = match self.buckets.remove(bucket) {
            None => {
                return Err(S3Error { kind: S3ErrorKind::NoSuchBucket, resource: resource(bucket) });
            },
            Some(b) => b,
        };
        let ghost old_b = b;
        let upload_id = new_uuid();
        let u = MultipartUpload {
            upload_id: upload_id.clone(),
            key: key.to_owned(),
            content_type,
            user_metadata: metadata,
            parts: IntTable::new(),
        };
        let ghost gu = u;
        b.uploads.insert(upload_id.clone(), u);
        proof {
            lemma_map_values_insert(old_b.uploads@, upload_id@, gu, |u: MultipartUpload| u.view());
            assert(gu.view().parts =~= Map::<i32, PartView>::empty());
            assert(b.view() == with_upload(old_b.view(), upload_id@, gu.view()));
        }
        self.put_back(b);
        proof {
            assert(old_self.buckets@.remove(bucket@).insert(bucket@, b) =~= old_self.buckets@.insert(bucket@, b));
            old_self.lemma_views_after_insert(self, bucket@, b);
            assert(old_self.configs().insert(bucket@, b.notifications) =~= old_self.configs());
        }
        Ok(upload_id)
    }

    /// Stores part `part_number` of an upload, replacing any earlier part with that number.
    pub fn upload_part(&mut self, bucket: &str, key: &str, upload_id: &str, part_number: i32, data: Vec<u8>) -> (r: Result<String, S3Error>)
        requires
            old(self).wf(),
        ensures
            final(self).wf(),
            final(self).delivers() == old(self).delivers(),
            final(self).configs() == old(self).configs(),
            final(self).pending() == old(self).pending(),
            match r {
                Ok(etag) => {
                    let u = old(self)@[bucket@].uploads[upload_id@];
                    &&& old(self)@.contains_key(bucket@)
                    &&& old(self)@[bucket@].uploads.contains_key(upload_id@)
                    &&& etag@ == etag_of(data@)
                    &&& final(self)@ == old(self)@.insert(bucket@, with_upload(old(self)@[bucket@], upload_id@, UploadView {
                        parts: u.parts.insert(part_number, PartView {
                            etag: etag@,
                            size: data@.len() as u64,
                            data: data@,
                            last_modified: final(self)@[bucket@].uploads[upload_id@].parts[part_number].last_modified,
                        }),
                        ..u
                    }))
                },
                Err(e) => final(self)@ == old(self)@ && if !old(self)@.contains_key(bucket@) {
                    e.kind == S3ErrorKind::NoSuchBucket
                } else {
                    !old(self)@[bucket@].uploads.contains_key(upload_id@) && e.kind == S3ErrorKind::NoSuchUpload
                },
            },
    {
        let ghost old_self = *old(self);
        let mut b = match self.buckets.remove(bucket) {
            None => {
                return Err(S3Error { kind: S3ErrorKind::NoSuchBucket, resource: resource(bucket) });
            },
            Some(b) => b,
        };
        let ghost old_b = b;
        let mut u = match b.uploads.remove(upload_id) {
            None => {
                proof {
                    assert(old_b.uploads@.remove(upload_id@) =~= old_b.uploads@);
                    assert(b.view() == old_b.view());
                }
                self.put_back(b);
                proof {
                    assert(old_self.buckets@.remove(bucket@).insert(bucket@, b) =~= old_self.buckets@.insert(bucket@, b));
                    old_self.lemma_views_after_insert(self, bucket@, b);
                    assert(old_self.configs().insert(bucket@, b.notifications) =~= old_self.configs());
                    assert(old_self@.insert(bucket@, b.view()) =~= old_self@);
                }
                return Err(S3Error { kind: S3ErrorKind::NoSuchUpload, resource: resource(upload_id) });
            },
            Some(u) => u,
        };
        let ghost old_u = u;
        assert(old_b.uploads@.contains_key(upload_id@));
        let etag = calculate_etag(data.as_slice());
        let size = data.len() as u64;
        let part = StoredPart { part_number, etag: etag.clone(), size, data, last_modified: now_rfc3339() };
        let ghost gp = part;
        u.parts.insert(part_number, part);
        let ghost gu = u;
        b.uploads.insert(upload_id.to_owned(), u);
        proof {
            lemma_map_values_insert(old_u.parts@, part_number, gp, |p: StoredPart| p.view());
            lemma_map_values_insert(old_b.uploads@.remove(upload_id@), upload_id@, gu, |u: MultipartUpload| u.view());
            assert(old_b.uploads@.remove(upload_id@).insert(upload_id@, gu) =~= old_b.uploads@.insert(upload_id@, gu));
            lemma_map_values_insert(old_b.uploads@, upload_id@, gu, |u: MultipartUpload| u.view());
            assert forall|k: Seq<char>| #[trigger] b.uploads@.contains_key(k) implies b.uploads@[k].parts.wf() by {
                if k != upload_id@ {
                    assert(old_b.uploads@.contains_key(k));
                }
            }
        }
        self.put_back(b);
        proof {
            assert(old_self.buckets@.remove(bucket@).insert(bucket@, b) =~= old_self.buckets@.insert(bucket@, b));
            old_self.lemma_views_after_insert(self, bucket@, b);
            assert(old_self.configs().insert(bucket@, b.notifications) =~= old_self.configs());
            assert(self@[bucket@].uploads[upload_id@].parts[part_number] == gp.view());
        }
        Ok(etag)
    }

    /// Drops a multipart upload and its parts.
    pub fn abort_multipart_upload(&mut self, bucket: &str, key: &str, upload_id: &str) -> (r: Result<(), S3Error>)
        requires
            old(self).wf(),
        ensures
            final(self).wf(),
            final(self).delivers() == old(self).delivers(),
            final(self).configs() == old(self).configs(),
            final(self).pending() == old(self).pending(),
            match r {
                Ok(()) => old(self)@.contains_key(bucket@) && old(self)@[bucket@].uploads.contains_key(upload_id@)
                    && final(self)@ == old(self)@.insert(bucket@, without_upload(old(self)@[bucket@], upload_id@)),
                Err(e) => final(self)@ == old(self)@ && if !old(self)@.contains_key(bucket@) {
                    e.kind == S3ErrorKind::NoSuchBucket
                } else {
                    !old(self)@[bucket@].uploads.contains_key(upload_id@) && e.kind == S3ErrorKind::NoSuchUpload
                },
            },
    {
        let ghost old_self = *old(self);
        let mut b = match self.buckets.remove(bucket) {
            None => {
                return Err(S3Error { kind: S3ErrorKind::NoSuchBucket, resource: resource(bucket) });
            },
            Some(b) => b,
        };
        let ghost old_b = b;
        let removed = b.uploads.remove(upload_id);
        proof {
            lemma_map_values_remove(old_b.uploads@, upload_id@, |u: MultipartUpload| u.view());
            assert(b.view() == without_upload(old_b.view(), upload_id@));
        }
        self.put_back(b);
        proof {
            assert(old_self.buckets@.remove(bucket@).insert(bucket@, b) =~= old_self.buckets@.insert(bucket@, b));
            old_self.lemma_views_after_insert(self, bucket@, b);
            assert(old_self.configs().insert(bucket@, b.notifications) =~= old_self.configs());
        }
        match removed {
            None => {
                proof {
                    assert(old_b.uploads@.remove(upload_id@) =~= old_b.uploads@);
                    assert(old_self@.insert(bucket@, b.view()) =~= old_self@);
                }
                Err(S3Error { kind: S3ErrorKind::NoSuchUpload, resource: resource(upload_id) })
            },
            Some(_) => Ok(()),
        }
    }

    /// The parts of an upload, by part number.
    pub fn list_parts(&self, bucket: &str, key: &str, upload_id: &str) -> (r: Result<Vec<PartInfo>, S3Error>)
        requires
            self.wf(),
        ensures
            match r {
                Ok(list) => {
                    &&& self@.contains_key(bucket@)
                    &&& self@[bucket@].uploads.contains_key(upload_id@)
                    &&& lists_parts(list@, self@[bucket@].uploads[upload_id@].parts)
                },
                Err(e) => if !self@.contains_key(bucket@) {
                    e.kind == S3ErrorKind::NoSuchBucket
                } else {
                    !self@[bucket@].uploads.contains_key(upload_id@) && e.kind == S3ErrorKind::NoSuchUpload
                },
            },
    {
        let b = match self.buckets.get(bucket) {
            None => {
                return Err(S3Error { kind: S3ErrorKind::NoSuchBucket, resource: resource(bucket) });
            },
            Some(b) => b,
        };
        let u = match b.uploads.get(upload_id) {
            None => {
                return Err(S3Error { kind: S3ErrorKind::NoSuchUpload, resource: resource(upload_id) });
            },
            Some(u) => u,
        };
        assert(b.wf());
        assert(b.uploads@.contains_key(upload_id@));
        assert(u.parts.wf());
        proof { u.parts.lemma_wf(); }
        assert(self@[bucket@].uploads[upload_id@] == u.view());
        let n = u.parts.len();
        let mut list: Vec<PartInfo> = Vec::new();
        let mut i: usize = 0;
        while i < n
            invariant
                u.parts.wf(),
                n == u.parts.keys().len(),
                i <= n,
                list@.len() == i,
                forall|j: int| 0 <= j < i ==> {
                    &&& (#[trigger] list@[j]).part_number == u.parts.keys()[j]
                    &&& list@[j].etag@ == u.parts.vals()[j].etag@
                    &&& list@[j].size == u.parts.vals()[j].size
                    &&& list@[j].last_modified@ == u.parts.vals()[j].last_modified@
                },
            decreases n - i,
        {
            let (num, p) = u.parts.entry(i);
            list.push(PartInfo { part_number: num, etag: p.etag.clone(), size: p.size, last_modified: p.last_modified.clone() });
            i = i + 1;
        }
        proof {
            let parts = self@[bucket@].uploads[upload_id@].parts;
            assert forall|m: i32| #[trigger] parts.contains_key(m) implies exists|j: int|
                0 <= j < list@.len() && list@[j].part_number == m by {
                assert(u.parts@.contains_key(m));
                let j = choose|j: int| 0 <= j < u.parts.keys().len() && u.parts.keys()[j] == m;
                assert(list@[j].part_number == m);
            }
            assert forall|a: int, c: int| 0 <= a < c < list@.len() implies
                #[trigger] list@[a].part_number < #[trigger] list@[c].part_number by {
                assert(u.parts.keys()[a] < u.parts.keys()[c]);
            }
            assert forall|a: int| 0 <= a < list@.len() implies {
                &&& #[trigger] parts.contains_key(list@[a].part_number)
                &&& list@[a].etag@ == parts[list@[a].part_number].etag
                &&& list@[a].size == parts[list@[a].part_number].size
                &&& list@[a].last_modified@ == parts[list@[a].part_number].last_modified
            } by {
                assert(u.parts@.contains_key(u.parts.keys()[a]));
            }
            assert(lists_parts(list@, parts));
        }
        Ok(list)
    }

    /// Joins the listed parts of an upload, in the order given, into the object
    /// `key`. The upload is gone afterwards, also when a listed part is missing.
    pub fn complete_multipart_upload(
        &mut self,
        bucket: &str,
        key: &str,
        upload_id: &str,
        parts: Vec<CompletedPart>,
    ) -> (r: Result<ObjectMetadata, S3Error>)
        requires
            old(self).wf(),
        ensures
            final(self).wf(),
            final(self).delivers() == old(self).delivers(),
            final(self).configs() == old(self).configs(),
            match r {
                Ok(m) => {
                    let u = old(self)@[bucket@].uploads[upload_id@];
                    let data = concat_parts(u.parts, parts@)->0;
                    &&& old(self)@.contains_key(bucket@)
                    &&& old(self)@[bucket@].uploads.contains_key(upload_id@)
                    &&& concat_parts(u.parts, parts@) is Some
                    &&& m@ == (MetaView {
                        key: key@,
                        size: data.len() as u64,
                        etag: etag_of(data),
                        last_modified: m@.last_modified,
                        content_type: content_type_or_default(u.content_type),
                        user_metadata: u.user_metadata,
                    })
                    &&& final(self)@ == old(self)@.insert(bucket@,
                        with_object(without_upload(old(self)@[bucket@], upload_id@), key@, object_view(m@, data)))
                    &&& raised(old(self).pending(), final(self).pending(),
                        old(self).event_targets_for(bucket@, key@, "s3:ObjectCreated:Put"@)
                        + old(self).event_targets_for(bucket@, key@, "s3:ObjectCreated:CompleteMultipartUpload"@))
                },
                Err(e) => {
                    &&& final(self).pending() == old(self).pending()
                    &&& if !old(self)@.contains_key(bucket@) {
                        e.kind == S3ErrorKind::NoSuchBucket && final(self)@ == old(self)@
                    } else if !old(self)@[bucket@].uploads.contains_key(upload_id@) {
                        e.kind == S3ErrorKind::NoSuchUpload && final(self)@ == old(self)@
                    } else {
                        &&& concat_parts(old(self)@[bucket@].uploads[upload_id@].parts, parts@) is None
                        &&& e.kind == S3ErrorKind::InvalidPart
                        &&& final(self)@ == old(self)@.insert(bucket@, without_upload(old(self)@[bucket@], upload_id@))
                    }
                },
            },
    {
        let ghost old_self = *old(self);
        let mut b = match self.buckets.remove(bucket) {
            None => {
                return Err(S3Error { kind: S3ErrorKind::NoSuchBucket, resource: resource(bucket) });
            },
            Some(b) => b,
        };
        let ghost old_b = b;
        let taken = b.uploads.remove(upload_id);
        proof {
            lemma_map_values_remove(old_b.uploads@, upload_id@, |u: MultipartUpload| u.view());
        }
        self.put_back(b);
        proof {
            assert(old_self.buckets@.remove(bucket@).insert(bucket@, b) =~= old_self.buckets@.insert(bucket@, b));
            old_self.lemma_views_after_insert(self, bucket@, b);
            assert(old_self.configs().insert(bucket@, b.notifications) =~= old_self.configs());
        }
        let u = match taken {
            None => {
                proof {
                    assert(old_b.uploads@.remove(upload_id@) =~= old_b.uploads@);
                    assert(b.view() == old_b.view());
                    assert(old_self@.insert(bucket@, b.view()) =~= old_self@);
                }
                return Err(S3Error { kind: S3ErrorKind::NoSuchUpload, resource: resource(upload_id) });
            },
            Some(u) => u,
        };
        assert(b.view() == without_upload(old_b.view(), upload_id@));
        assert(u.parts.wf());
        let joined = join_parts(&u, &parts);
        let combined = match joined {
            None => {
                return Err(S3Error { kind: S3ErrorKind::InvalidPart, resource: resource(upload_id) });
            },
            Some(d) => d,
        };
        let ghost mid = *self;
        let res = self.put_object(bucket, key, combined, u.content_type, u.user_metadata);
        match res {
            Err(e) => Err(e),
            Ok(m) => {
                let ghost after_put = *self;
                self.dispatch_event(bucket, key, m.size, m.etag.as_str(), "s3:ObjectCreated:CompleteMultipartUpload");
                proof {
                    let t1 = mid.event_targets_for(bucket@, key@, "s3:ObjectCreated:Put"@);
                    let t2 = mid.event_targets_for(bucket@, key@, "s3:ObjectCreated:CompleteMultipartUpload"@);
                    assert(raised(after_put.pending(), self.pending(), t2));
                    lemma_raised_concat(mid.pending(), after_put.pending(), self.pending(), t1, t2);
                }
                Ok(m)
            },
        }
    }
}


/// An optional string as text.
pub open spec fn opt_view_str(o: Option<&str>) -> Option<Seq<char>> {
    match o {
        Some(t) => Some(t@),
        None => None,
    }
}

/// What listing a bucket (version 2) gives: the keys after the continuation
/// token or start key that match the prefix, in order, up to `max_keys`, with
/// the common prefixes that the delimiter makes; or the missing bucket.
pub open spec fn listed_v2(
    s: InMemoryStorage,
    bucket: Seq<char>,
    prefix: Option<Seq<char>>,
    delimiter: Option<Seq<char>>,
    max_keys: usize,
    continuation_token: Option<Seq<char>>,
    start_after: Option<Seq<char>>,
    r: Result<ListObjectsV2Result, S3Error>,
) -> bool {
    match r {
    Ok(res) => {
        let pfx = match prefix { Some(p) => p, None => Seq::<char>::empty() };
        let items = matching(s.listing(bucket), pfx);
        let start = match continuation_token {
            Some(t) => first_after(items, t),
            None => match start_after {
                Some(sa) => first_after(items, sa),
                None => 0,
            },
        };
        let delim = delimiter;
        let st = scan(items, start as int, pfx.len() as int, delim, max_keys as nat,
            ListScan { contents: Seq::empty(), prefixes: Set::empty(), truncated: false, next: None });
        &&& s@.contains_key(bucket)
        &&& metas_view(res.contents@) == st.contents
        &&& res.is_truncated == st.truncated
        &&& opt_view(res.next_continuation_token) == st.next
        &&& forall|i: int| 0 <= i < res.common_prefixes@.len() ==> st.prefixes.contains(#[trigger] res.common_prefixes@[i]@)
        &&& forall|c: Seq<char>| #[trigger] st.prefixes.contains(c) ==> views(res.common_prefixes@).contains(c)
        &&& forall|i: int, j: int| 0 <= i < j < res.common_prefixes@.len() ==> seq_lt(#[trigger] res.common_prefixes@[i]@, #[trigger] res.common_prefixes@[j]@)
        &&& res.name@ == bucket
        &&& res.prefix@ == pfx
        &&& opt_view(res.delimiter) == delim
        &&& res.max_keys == max_keys
        &&& res.key_count == res.contents@.len()
        &&& opt_view(res.continuation_token) == continuation_token
        &&& opt_view(res.start_after) == start_after
    },
    Err(e) => !s@.contains_key(bucket) && e.kind == S3ErrorKind::NoSuchBucket,
}
}

/// Whether `c` is the common prefix that some object of `items` rolls up into.
pub open spec fn rolled_from(items: Seq<MetaView>, pfx_len: int, delim: Option<Seq<char>>, c: Seq<char>) -> bool {
    exists|m: int| 0 <= m < items.len() && #[trigger] rolled_prefix(items[m].key, pfx_len, delim) == Some(c)
}

/// A listing meets no common prefix but those that its objects roll up into.
proof fn lemma_scan_prefixes_rolled(
    items: Seq<MetaView>,
    i: int,
    pfx_len: int,
    delim: Option<Seq<char>>,
    max_keys: nat,
    st: ListScan,
)
    requires
        forall|c: Seq<char>| #[trigger] st.prefixes.contains(c) ==> rolled_from(items, pfx_len, delim, c),
    ensures
        forall|c: Seq<char>| #[trigger] scan(items, i, pfx_len, delim, max_keys, st).prefixes.contains(c)
            ==> rolled_from(items, pfx_len, delim, c),
    decreases items.len() - i,
{
    if 0 <= i < items.len() {
        match rolled_prefix(items[i].key, pfx_len, delim) {
            Some(c0) => {
                let st2 = ListScan { prefixes: st.prefixes.insert(c0), ..st };
                assert forall|c: Seq<char>| #[trigger] st2.prefixes.contains(c) implies rolled_from(items, pfx_len, delim, c) by {
                    if c == c0 {
                        assert(rolled_prefix(items[i].key, pfx_len, delim) == Some(c));
                    }
                }
                lemma_scan_prefixes_rolled(items, i + 1, pfx_len, delim, max_keys, st2);
            },
            None => {
                if st.contents.len() < max_keys {
                    lemma_scan_prefixes_rolled(items, i + 1, pfx_len, delim, max_keys,
                        ListScan { contents: st.contents.push(items[i]), ..st });
                }
            },
        }
    }
}

/// Whether `o` is an object of `items` that rolls up into no common prefix.
pub open spec fn unrolled_in(items: Seq<MetaView>, pfx_len: int, delim: Option<Seq<char>>, o: MetaView) -> bool {
    &&& rolled_prefix(o.key, pfx_len, delim) is None
    &&& exists|m: int| 0 <= m < items.len() && #[trigger] items[m] == o
}

/// A listing lists no object but those of `items` that roll up into no common prefix.
proof fn lemma_scan_contents_unrolled(
    items: Seq<MetaView>,
    i: int,
    pfx_len: int,
    delim: Option<Seq<char>>,
    max_keys: nat,
    st: ListScan,
)
    requires
        forall|n: int| 0 <= n < st.contents.len() ==> unrolled_in(items, pfx_len, delim, #[trigger] st.contents[n]),
    ensures
        forall|n: int| 0 <= n < scan(items, i, pfx_len, delim, max_keys, st).contents.len()
            ==> unrolled_in(items, pfx_len, delim, #[trigger] scan(items, i, pfx_len, delim, max_keys, st).contents[n]),
    decreases items.len() - i,
{
    if 0 <= i < items.len() {
        match rolled_prefix(items[i].key, pfx_len, delim) {
            Some(c0) => {
                lemma_scan_contents_unrolled(items, i + 1, pfx_len, delim, max_keys,
                    ListScan { prefixes: st.prefixes.insert(c0), ..st });
            },
            None => {
                if st.contents.len() < max_keys {
                    let st2 = ListScan { contents: st.contents.push(items[i]), ..st };
                    assert forall|n: int| 0 <= n < st2.contents.len() implies unrolled_in(items, pfx_len, delim, #[trigger] st2.contents[n]) by {
                        if n == st.contents.len() {
                            assert(items[i] == st2.contents[n]);
                        } else {
                            assert(st2.contents[n] == st.contents[n]);
                        }
                    }
                    lemma_scan_contents_unrolled(items, i + 1, pfx_len, delim, max_keys, st2);
                }
            },
        }
    }
}

/// Each object that `matching` keeps is an object of `ms`.
proof fn lemma_matching_from(ms: Seq<MetaView>, pfx: Seq<char>)
    ensures
        forall|m: int| 0 <= m < matching(ms, pfx).len() ==> exists|k: int| 0 <= k < ms.len() && #[trigger] ms[k] == #[trigger] matching(ms, pfx)[m],
    decreases ms.len(),
{
    if ms.len() > 0 {
        lemma_matching_from(ms.drop_last(), pfx);
        let p = matching(ms.drop_last(), pfx);
        assert forall|m: int| 0 <= m < matching(ms, pfx).len() implies exists|k: int| 0 <= k < ms.len() && #[trigger] ms[k] == #[trigger] matching(ms, pfx)[m] by {
            if m < p.len() {
                assert(matching(ms, pfx)[m] == p[m]);
                let k = choose|k: int| 0 <= k < ms.drop_last().len() && #[trigger] ms.drop_last()[k] == p[m];
                assert(ms[k] == ms.drop_last()[k]);
            } else {
                assert(matching(ms, pfx)[m] == ms[ms.len() - 1]);
            }
        }
    }
}

/// Under a delimiter `d`, every common prefix that ListObjectsV2 returns ends
/// with `d` and begins a key of the bucket: it starts with the requested prefix,
/// and the `d` that ends it is the first one after that prefix.
pub proof fn law_common_prefixes_end_with_delimiter(
    s: InMemoryStorage,
    bucket: Seq<char>,
    prefix: Option<Seq<char>>,
    d: Seq<char>,
    max_keys: usize,
    continuation_token: Option<Seq<char>>,
    start_after: Option<Seq<char>>,
    res: ListObjectsV2Result,
)
    requires
        listed_v2(s, bucket, prefix, Some(d), max_keys, continuation_token, start_after, Ok(res)),
    ensures
        forall|i: int| #![trigger res.common_prefixes@[i]] 0 <= i < res.common_prefixes@.len() ==> {
            let c = res.common_prefixes@[i]@;
            let pfx = match prefix { Some(p) => p, None => Seq::<char>::empty() };
            &&& is_suffix(d, c)
            &&& is_prefix(pfx, c)
            &&& c.len() >= pfx.len() + d.len()
            &&& forall|q: int| pfx.len() <= q < c.len() - d.len() ==> #[trigger] c.subrange(q, q + d.len()) != d
            &&& exists|k: int| 0 <= k < s.listing(bucket).len() && is_prefix(c, #[trigger] s.listing(bucket)[k].key)
        },
{
    let pfx = match prefix { Some(p) => p, None => Seq::<char>::empty() };
    let ms = s.listing(bucket);
    let items = matching(ms, pfx);
    let start = match continuation_token {
        Some(t) => first_after(items, t),
        None => match start_after {
            Some(sa) => first_after(items, sa),
            None => 0,
        },
    };
    let init = ListScan { contents: Seq::empty(), prefixes: Set::empty(), truncated: false, next: None };
    let st = scan(items, start as int, pfx.len() as int, Some(d), max_keys as nat, init);
    lemma_scan_prefixes_rolled(items, start as int, pfx.len() as int, Some(d), max_keys as nat, init);
    lemma_matching_prefix(ms, pfx);
    lemma_matching_from(ms, pfx);
    assert forall|i: int| #![trigger res.common_prefixes@[i]] 0 <= i < res.common_prefixes@.len() implies {
        let c = res.common_prefixes@[i]@;
        &&& is_suffix(d, c)
        &&& is_prefix(pfx, c)
        &&& c.len() >= pfx.len() + d.len()
        &&& forall|q: int| pfx.len() <= q < c.len() - d.len() ==> #[trigger] c.subrange(q, q + d.len()) != d
        &&& exists|k: int| 0 <= k < ms.len() && is_prefix(c, #[trigger] ms[k].key)
    } by {
        let c = res.common_prefixes@[i]@;
        assert(st.prefixes.contains(c));
        assert(rolled_from(items, pfx.len() as int, Some(d), c));
        let m = choose|m: int| 0 <= m < items.len() && #[trigger] rolled_prefix(items[m].key, pfx.len() as int, Some(d)) == Some(c);
        let key = items[m].key;
        assert(is_prefix(pfx, key));
        let rest = key.subrange(pfx.len() as int, key.len() as int);
        lemma_find_sub_found(rest, d);
        let j = find_sub(rest, d)->0;
        assert(c == key.subrange(0, (pfx.len() + j + d.len()) as int));
        assert(c.subrange(c.len() - d.len(), c.len() as int) =~= rest.subrange(j as int, (j + d.len()) as int));
        assert(c.subrange(0, pfx.len() as int) =~= key.subrange(0, pfx.len() as int));
        assert forall|q: int| pfx.len() <= q < c.len() - d.len() implies #[trigger] c.subrange(q, q + d.len()) != d by {
            let q2 = q - pfx.len();
            assert(!is_prefix(d, rest.subrange(q2, rest.len() as int)));
            assert(rest.subrange(q2, rest.len() as int).subrange(0, d.len() as int) =~= c.subrange(q, q + d.len()));
        }
        let k = choose|k: int| 0 <= k < ms.len() && #[trigger] ms[k] == items[m];
        assert(key.subrange(0, c.len() as int) =~= c);
        assert(is_prefix(c, ms[k].key));
    }
}

/// Under a delimiter `d`, every object that ListObjectsV2 lists is an object
/// of the bucket whose key starts with the requested prefix and holds no `d`
/// after it: keys that hold one roll up into common prefixes instead.
pub proof fn law_listed_objects_hold_no_delimiter(
    s: InMemoryStorage,
    bucket: Seq<char>,
    prefix: Option<Seq<char>>,
    d: Seq<char>,
    max_keys: usize,
    continuation_token: Option<Seq<char>>,
    start_after: Option<Seq<char>>,
    res: ListObjectsV2Result,
)
    requires
        listed_v2(s, bucket, prefix, Some(d), max_keys, continuation_token, start_after, Ok(res)),
    ensures
        forall|n: int| #![trigger metas_view(res.contents@)[n]] 0 <= n < res.contents@.len() ==> {
            let o = metas_view(res.contents@)[n];
            let pfx = match prefix { Some(p) => p, None => Seq::<char>::empty() };
            &&& is_prefix(pfx, o.key)
            &&& forall|q: int| pfx.len() <= q <= o.key.len() - d.len() ==> #[trigger] o.key.subrange(q, q + d.len()) != d
            &&& exists|k: int| 0 <= k < s.listing(bucket).len() && #[trigger] s.listing(bucket)[k] == o
        },
{
    let pfx = match prefix { Some(p) => p, None => Seq::<char>::empty() };
    let ms = s.listing(bucket);
    let items = matching(ms, pfx);
    let start = match continuation_token {
        Some(t) => first_after(items, t),
        None => match start_after {
            Some(sa) => first_after(items, sa),
            None => 0,
        },
    };
    let init = ListScan { contents: Seq::empty(), prefixes: Set::empty(), truncated: false, next: None };
    let st = scan(items, start as int, pfx.len() as int, Some(d), max_keys as nat, init);
    lemma_scan_contents_unrolled(items, start as int, pfx.len() as int, Some(d), max_keys as nat, init);
    lemma_matching_prefix(ms, pfx);
    lemma_matching_from(ms, pfx);
    assert(metas_view(res.contents@) == st.contents);
    assert forall|n: int| #![trigger metas_view(res.contents@)[n]] 0 <= n < res.contents@.len() implies {
        let o = metas_view(res.contents@)[n];
        &&& is_prefix(pfx, o.key)
        &&& forall|q: int| pfx.len() <= q <= o.key.len() - d.len() ==> #[trigger] o.key.subrange(q, q + d.len()) != d
        &&& exists|k: int| 0 <= k < ms.len() && #[trigger] ms[k] == o
    } by {
        let o = metas_view(res.contents@)[n];
        assert(o == st.contents[n]);
        assert(unrolled_in(items, pfx.len() as int, Some(d), st.contents[n]));
        let m = choose|m: int| 0 <= m < items.len() && #[trigger] items[m] == o;
        assert(is_prefix(pfx, items[m].key));
        let rest = o.key.subrange(pfx.len() as int, o.key.len() as int);
        lemma_find_sub_found(rest, d);
        assert(find_sub(rest, d) is None);
        assert forall|q: int| pfx.len() <= q <= o.key.len() - d.len() implies #[trigger] o.key.subrange(q, q + d.len()) != d by {
            let q2 = q - pfx.len();
            assert(!is_prefix(d, rest.subrange(q2, rest.len() as int)));
            assert(rest.subrange(q2, rest.len() as int).subrange(0, d.len() as int) =~= o.key.subrange(q, q + d.len()));
        }
        let k = choose|k: int| 0 <= k < ms.len() && #[trigger] ms[k] == items[m];
    }
}

/// `r` lists the buckets of `s`: each once, by name in ascending order, with
/// its region and creation date.
pub open spec fn buckets_listed(s: InMemoryStorage, r: Seq<BucketInfo>) -> bool {
    &&& r.len() == s.bucket_names().len()
    &&& forall|i: int| 0 <= i < r.len() ==> {
        &&& #[trigger] r[i].name@ == s.bucket_names()[i]
        &&& s@.contains_key(r[i].name@)
        &&& r[i].region@ == s@[r[i].name@].region
        &&& r[i].creation_date@ == s@[r[i].name@].creation_date
    }
    &&& forall|i: int, j: int| 0 <= i < j < r.len() ==> seq_lt(#[trigger] r[i].name@, #[trigger] r[j].name@)
    &&& forall|k: Seq<char>| #[trigger] s@.contains_key(k) ==> exists|i: int| 0 <= i < r.len() && r[i].name@ == k
}

} // verus!
