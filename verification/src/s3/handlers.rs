//! The REST front of S3: a request's method, bucket, key, query and headers
//! are routed to a storage operation, and its outcome is written as a response.
use vstd::prelude::*;
use quick_xml::events::Event::{Empty, End, Eof, Start, Text};
use crate::http::{request_param_map, request_params};
use crate::rds::handlers::{parse_i32, parse_i32_spec};
use crate::s3::storage::{
    with_upload, UploadView, PartView, PartInfo, lists_parts, buckets_listed,
    pairs_view, range_is_sane, BucketInfo, CompletedPart, InMemoryStorage, S3Error, S3ErrorKind, listed_v2, etag_of,
    object_view, with_object, without_object, without_upload, concat_parts, content_range_text, MetaView, BucketView,
    ListObjectsV2Result,
};
use crate::s3::types::{byte_range_of, ByteRange};
use crate::s3::xml::{
    serialize_bucket_location, serialize_complete_multipart, serialize_copy_object_result, serialize_delete_result,
    serialize_initiate_multipart, serialize_list_buckets, serialize_list_objects_v2, serialize_list_parts,
    list_objects_v2_xml, initiate_multipart_xml, copy_object_xml, list_buckets_xml, bucket_location_xml, list_parts_xml, delete_result_xml,
};
use crate::sqs::engine::texts;
use crate::table::Table;
use crate::text::{
    append, append_escaped, append_u64, chars_to_string, ends_with, find_sub, find_sub_exec, first_index,
    is_prefix, is_suffix, starts_with, str_eq, to_chars, trim_end_char, trim_end_matches_char, trim_start_char,
    trim_start_matches_char, xml_escaped,
};

verus! {

/// The HTTP methods that S3 answers; any other is `Other`.
#[derive(Debug, Clone, Copy, PartialEq, Eq, Structural)]
pub enum S3Method {
    Get,
    Put,
    Delete,
    Head,
    Post,
    Other,
}

/// An answer: status, headers in order, and body bytes.
#[derive(Debug)]
pub struct S3Response {
    pub status: u16,
    pub headers: Vec<(String, String)>,
    pub body: Vec<u8>,
}

/// Why a request failed: in storage, or before reaching it.
#[derive(Debug)]
pub enum S3RequestError {
    Storage(S3Error),
    BadRequest(String),
    InvalidArgument(String),
    NotFound(String),
}

/// The operation a request asks for.
#[derive(Debug, Clone, Copy, PartialEq, Eq, Structural)]
pub enum S3Op {
    ListBuckets,
    CreateBucket,
    DeleteBucket,
    HeadBucket,
    GetBucketLocation,
    ListObjectsV2,
    DeleteObjects,
    UploadPart,
    CopyObject,
    PutObject,
    ListParts,
    GetObject,
    HeadObject,
    AbortMultipartUpload,
    DeleteObject,
    CreateMultipartUpload,
    CompleteMultipartUpload,
    UnsupportedPost,
    Unknown,
}

/// The first value of a header, `None` inside when it is not visible text.
pub open spec fn header_entry(hs: Seq<(String, Option<String>)>, name: Seq<char>) -> Option<Option<Seq<char>>>
    decreases hs.len(),
{
    if hs.len() == 0 {
        None
    } else if hs[0].0@ == name {
        Some(match hs[0].1 { Some(v) => Some(v@), None => None })
    } else {
        header_entry(hs.drop_first(), name)
    }
}

/// The first value of a header, when it is there and is visible text.
pub open spec fn header_text(hs: Seq<(String, Option<String>)>, name: Seq<char>) -> Option<Seq<char>> {
    match header_entry(hs, name) {
        Some(Some(v)) => Some(v),
        _ => None,
    }
}

/// Whether a query parameter is present.
pub open spec fn has_param(q: Map<Seq<char>, Seq<char>>, k: Seq<char>) -> bool {
    q.contains_key(k)
}

/// The operation a request asks for, by method, by whether it names a bucket
/// and a key, by its query and by whether it carries a copy source.
pub open spec fn s3_op(
    m: S3Method,
    has_bucket: bool,
    has_key: bool,
    q: Map<Seq<char>, Seq<char>>,
    copy_source: bool,
) -> S3Op {
    if !has_bucket {
        if m == S3Method::Get && !has_key { S3Op::ListBuckets } else { S3Op::Unknown }
    } else if !has_key {
        match m {
            S3Method::Get => if has_param(q, "location"@) { S3Op::GetBucketLocation } else { S3Op::ListObjectsV2 },
            S3Method::Put => S3Op::CreateBucket,
            S3Method::Delete => S3Op::DeleteBucket,
            S3Method::Head => S3Op::HeadBucket,
            S3Method::Post => if has_param(q, "delete"@) { S3Op::DeleteObjects } else { S3Op::Unknown },
            S3Method::Other => S3Op::Unknown,
        }
    } else {
        match m {
            S3Method::Put => if has_param(q, "uploadId"@) && has_param(q, "partNumber"@) {
                S3Op::UploadPart
            } else if copy_source {
                S3Op::CopyObject
            } else {
                S3Op::PutObject
            },
            S3Method::Get => if has_param(q, "uploadId"@) { S3Op::ListParts } else { S3Op::GetObject },
            S3Method::Head => S3Op::HeadObject,
            S3Method::Delete => if has_param(q, "uploadId"@) { S3Op::AbortMultipartUpload } else { S3Op::DeleteObject },
            S3Method::Post => if has_param(q, "uploads"@) {
                S3Op::CreateMultipartUpload
            } else if has_param(q, "uploadId"@) {
                S3Op::CompleteMultipartUpload
            } else {
                S3Op::UnsupportedPost
            },
            S3Method::Other => S3Op::Unknown,
        }
    }
}

/// The status of a successful operation (a ranged read answers 206 instead).
pub open spec fn op_status(op: S3Op) -> u16 {
    match op {
        S3Op::DeleteBucket | S3Op::AbortMultipartUpload | S3Op::DeleteObject => 204,
        _ => 200,
    }
}

/// Whether an operation only reads the storage.
pub open spec fn reads_only(op: S3Op) -> bool {
    match op {
        S3Op::ListBuckets | S3Op::HeadBucket | S3Op::GetBucketLocation | S3Op::ListObjectsV2 | S3Op::ListParts
        | S3Op::GetObject | S3Op::HeadObject | S3Op::UnsupportedPost | S3Op::Unknown => true,
        _ => false,
    }
}

/// The first value of a header, when it is there and is visible text.
pub fn header_value(hs: &Vec<(String, Option<String>)>, name: &str) -> (r: Option<String>)
    ensures
        match r {
            Some(v) => header_text(hs@, name@) == Some(v@),
            None => header_text(hs@, name@) is None,
        },
{
    let mut i: usize = 0;
    assert(hs@.subrange(0, hs@.len() as int) =~= hs@);
    while i < hs.len()
        invariant
            i <= hs@.len(),
            header_entry(hs@, name@) == header_entry(hs@.subrange(i as int, hs@.len() as int), name@),
        decreases hs@.len() - i,
    {
        let ghost rest = hs@.subrange(i as int, hs@.len() as int);
        if str_eq(hs[i].0.as_str(), name) {
            return match &hs[i].1 {
                Some(v) => Some(v.clone()),
                None => None,
            };
        }
        assert(rest.drop_first() =~= hs@.subrange(i + 1, hs@.len() as int));
        i = i + 1;
    }
    None
}

/// The user metadata of a request: each `x-amz-meta-` header with a visible
/// value, a later value of the same name replacing an earlier one.
pub open spec fn meta_pairs(hs: Seq<(String, Option<String>)>) -> Seq<(Seq<char>, Seq<char>)>
    decreases hs.len(),
{
    if hs.len() == 0 {
        Seq::empty()
    } else {
        let prev = meta_pairs(hs.drop_last());
        let (n, v) = hs.last();
        if is_prefix("x-amz-meta-"@, n@) && v is Some {
            put_pair(prev, n@, v->0@)
        } else {
            prev
        }
    }
}

/// `ps` with `k` set to `v`: in place when present, else at the end.
pub open spec fn put_pair(ps: Seq<(Seq<char>, Seq<char>)>, k: Seq<char>, v: Seq<char>) -> Seq<(Seq<char>, Seq<char>)> {
    match pair_index(ps, k) {
        Some(i) => ps.update(i, (k, v)),
        None => ps.push((k, v)),
    }
}

/// Where `k` stands in `ps`.
pub open spec fn pair_index(ps: Seq<(Seq<char>, Seq<char>)>, k: Seq<char>) -> Option<int>
    decreases ps.len(),
{
    if ps.len() == 0 {
        None
    } else if ps.last().0 == k {
        Some(ps.len() - 1)
    } else {
        pair_index(ps.drop_last(), k)
    }
}

/// Where `pair_index` finds `k`, `k` stands.
pub proof fn lemma_pair_index_bound(ps: Seq<(Seq<char>, Seq<char>)>, k: Seq<char>)
    ensures
        pair_index(ps, k) matches Some(i) ==> 0 <= i < ps.len() && ps[i].0 == k,
    decreases ps.len(),
{
    if ps.len() > 0 && ps.last().0 != k {
        lemma_pair_index_bound(ps.drop_last(), k);
    }
}

/// Where the key `k` stands in `r`, searching from the end.
fn find_pair(r: &Vec<(String, String)>, k: &str) -> (i: Option<usize>)
    ensures
        match i {
            Some(j) => pair_index(pairs_view(r@), k@) == Some(j as int),
            None => pair_index(pairs_view(r@), k@) is None,
        },
{
    let mut n: usize = r.len();
    assert(pairs_view(r@).subrange(0, n as int) =~= pairs_view(r@));
    while n > 0
        invariant
            n <= r@.len(),
            pair_index(pairs_view(r@), k@) == pair_index(pairs_view(r@).subrange(0, n as int), k@),
        decreases n,
    {
        let ghost pre = pairs_view(r@).subrange(0, n as int);
        if str_eq(r[n - 1].0.as_str(), k) {
            return Some(n - 1);
        }
        assert(pre.drop_last() =~= pairs_view(r@).subrange(0, n - 1));
        n = n - 1;
    }
    None
}

/// The user metadata of a request, from its `x-amz-meta-` headers.
pub fn user_metadata(hs: &Vec<(String, Option<String>)>) -> (r: Vec<(String, String)>)
    ensures
        pairs_view(r@) == meta_pairs(hs@),
{
    let mut r: Vec<(String, String)> = Vec::new();
    let mut i: usize = 0;
    while i < hs.len()
        invariant
            i <= hs@.len(),
            pairs_view(r@) == meta_pairs(hs@.subrange(0, i as int)),
        decreases hs@.len() - i,
    {
        assert(hs@.subrange(0, i + 1).drop_last() =~= hs@.subrange(0, i as int));
        if starts_with(hs[i].0.as_str(), "x-amz-meta-") {
            match &hs[i].1 {
                Some(v) => {
                    let ghost before = pairs_view(r@);
                    match find_pair(&r, hs[i].0.as_str()) {
                        Some(j) => {
                            proof {
                                lemma_pair_index_bound(before, hs@[i as int].0@);
                            }
                            r.set(j, (hs[i].0.clone(), v.clone()));
                            assert(pairs_view(r@) =~= before.update(j as int, (hs@[i as int].0@, v@)));
                        },
                        None => {
                            r.push((hs[i].0.clone(), v.clone()));
                            assert(pairs_view(r@) =~= before.push((hs@[i as int].0@, v@)));
                        },
                    }
                },
                None => {},
            }
        }
        i = i + 1;
    }
    assert(hs@.subrange(0, hs@.len() as int) =~= hs@);
    r
}

/// One event of the XML reader: an element opening, empty or closing, a piece of
/// text (or text whose escapes could not be read), anything else, the end, or
/// a failure to read on.
#[derive(Debug)]
pub enum XmlToken {
    Start(String),
    Empty(String),
    End(String),
    Text(String),
    BadText(String),
    Other,
    Eof,
    Fail(String),
}

/// An event of the XML reader as values.
pub enum XmlEvent {
    Start(Seq<char>),
    Empty(Seq<char>),
    End(Seq<char>),
    Text(Seq<char>),
    BadText(Seq<char>),
    Other,
    Eof,
    Fail(Seq<char>),
}

impl XmlToken {
    /// The event as values.
    pub open spec fn event(&self) -> XmlEvent {
        match self {
            XmlToken::Start(n) => XmlEvent::Start(n@),
            XmlToken::Empty(n) => XmlEvent::Empty(n@),
            XmlToken::End(n) => XmlEvent::End(n@),
            XmlToken::Text(t) => XmlEvent::Text(t@),
            XmlToken::BadText(m) => XmlEvent::BadText(m@),
            XmlToken::Other => XmlEvent::Other,
            XmlToken::Eof => XmlEvent::Eof,
            XmlToken::Fail(m) => XmlEvent::Fail(m@),
        }
    }
}

/// The events of a sequence of tokens.
pub open spec fn token_events(ts: Seq<XmlToken>) -> Seq<XmlEvent> {
    ts.map_values(|t: XmlToken| t.event())
}

/// The event that the `i`th call of `Reader::read_event_into` yields on a
/// reader over `data` that drops whitespace around text: element names read as
/// text with invalid bytes replaced, text unescaped (or the message of the
/// failure to unescape it), the message of a failure to read.
pub uninterp spec fn xml_event_at(data: Seq<u8>, i: int) -> XmlEvent;

#[verifier::external_type_specification]
#[verifier::external_body]
#[verifier::reject_recursive_types(R)]
pub struct ExXmlReader<R>(quick_xml::Reader<R>);

/// A reader over a body, with the body and the number of events read so far.
pub struct XmlReading<'a> {
    reader: quick_xml::Reader<&'a [u8]>,
    data: Ghost<Seq<u8>>,
    count: Ghost<int>,
}

/// A reader over `data` (`quick_xml::Reader::from_reader`) that drops
/// whitespace around text (`trim_text(true)`), with no event read yet.
#[verifier::external_body]
fn open_xml<'a>(data: &'a [u8]) -> (r: XmlReading<'a>)
    ensures
        r.data@ == data@,
        r.count@ == 0,
{
    let mut reader = quick_xml::Reader::from_reader(data);
    reader.config_mut().trim_text(true);
    XmlReading { reader, data: Ghost(data@), count: Ghost(0) }
}

/// The next event of the reader (`Reader::read_event_into`), which is the event
/// of that number on the body (see `xml_event_at`).
#[verifier::external_body]
fn next_xml_token(reading: &mut XmlReading, buf: &mut Vec<u8>) -> (r: XmlToken)
    ensures
        r.event() == xml_event_at(old(reading).data@, old(reading).count@),
        final(reading).data@ == old(reading).data@,
        final(reading).count@ == old(reading).count@ + 1,
{
    reading.count = Ghost(reading.count@ + 1);
    match reading.reader.read_event_into(buf) {
        Ok(Start(e)) => XmlToken::Start(String::from_utf8_lossy(e.name().0).into_owned()),
        Ok(Empty(e)) => XmlToken::Empty(String::from_utf8_lossy(e.name().0).into_owned()),
        Ok(End(e)) => XmlToken::End(String::from_utf8_lossy(e.name().0).into_owned()),
        Ok(Text(e)) => match e.unescape() {
            Ok(t) => XmlToken::Text(t.into_owned()),
            Err(err) => XmlToken::BadText(err.to_string()),
        },
        Ok(Eof) => XmlToken::Eof,
        Ok(_) => XmlToken::Other,
        Err(err) => XmlToken::Fail(err.to_string()),
    }
}

/// What `n` calls of the reader gather from `data`, and whether reading has
/// ended: it ends at the end of the body (not kept) or at the first failure
/// (kept).
pub open spec fn xml_read_steps(data: Seq<u8>, n: nat) -> (Seq<XmlEvent>, bool)
    decreases n,
{
    if n == 0 {
        (Seq::empty(), false)
    } else {
        let p = xml_read_steps(data, (n - 1) as nat);
        if p.1 {
            p
        } else {
            match xml_event_at(data, n - 1) {
                XmlEvent::Eof => (p.0, true),
                XmlEvent::Fail(m) => (p.0.push(XmlEvent::Fail(m)), true),
                e => (p.0.push(e), false),
            }
        }
    }
}

/// The events read from a body: at most one more call than there are bytes.
pub open spec fn xml_read(data: Seq<u8>) -> Seq<XmlEvent> {
    xml_read_steps(data, data.len() + 1).0
}

/// Once reading has ended, more steps gather nothing.
proof fn lemma_read_steps_done(data: Seq<u8>, n: nat, m: nat)
    requires
        n <= m,
        xml_read_steps(data, n).1,
    ensures
        xml_read_steps(data, m) == xml_read_steps(data, n),
    decreases m,
{
    if m > n {
        lemma_read_steps_done(data, n, (m - 1) as nat);
    }
}

/// Whether a token ends the reading.
pub open spec fn token_ends(t: XmlToken) -> bool {
    t is Eof || t is Fail
}

/// The events of a body, up to the end or the first failure (which is kept),
/// calling the reader at most once more than there are bytes.
pub(crate) fn read_tokens(data: &[u8]) -> (r: Vec<XmlToken>)
    ensures
        token_events(r@) == xml_read(data@),
        r@.len() <= data@.len() + 1,
        forall|i: int| 0 <= i < r@.len() ==> !((#[trigger] r@[i]) is Eof),
        forall|i: int| 0 <= i < r@.len() - 1 ==> !((#[trigger] r@[i]) is Fail),
{
    let mut reading = open_xml(data);
    let mut buf: Vec<u8> = Vec::new();
    let mut out: Vec<XmlToken> = Vec::new();
    let limit: u128 = data.len() as u128 + 1;
    let mut n: u128 = 0;
    let mut done = false;
    assert(token_events(out@) =~= Seq::<XmlEvent>::empty());
    while !done && n < limit
        invariant
            limit == data@.len() + 1,
            n <= limit,
            out@.len() <= n,
            reading.data@ == data@,
            !done ==> reading.count@ == n,
            (token_events(out@), done) == xml_read_steps(data@, n as nat),
            forall|i: int| 0 <= i < out@.len() ==> !((#[trigger] out@[i]) is Eof),
            forall|i: int| 0 <= i < out@.len() - 1 ==> !((#[trigger] out@[i]) is Fail),
            !done && out@.len() > 0 ==> !(out@.last() is Fail),
        decreases limit - n,
    {
        buf.clear();
        let ghost before = out@;
        let t = next_xml_token(&mut reading, &mut buf);
        let ghost ev = t.event();
        match t {
            XmlToken::Eof => {
                done = true;
            },
            XmlToken::Fail(m) => {
                out.push(XmlToken::Fail(m));
                done = true;
                assert(token_events(out@) =~= token_events(before).push(ev));
            },
            other => {
                out.push(other);
                assert(token_events(out@) =~= token_events(before).push(ev));
            },
        }
        n = n + 1;
    }
    proof {
        if done {
            lemma_read_steps_done(data@, n as nat, (data@.len() + 1) as nat);
        }
    }
    out
}

/// What reading a delete request has gathered: the current element, the keys,
/// the quiet flag, and the failure if any.
pub struct DeleteScan {
    pub tag: Seq<char>,
    pub keys: Seq<Seq<char>>,
    pub quiet: bool,
    pub error: Option<Seq<char>>,
}

/// The keys and quiet flag of a delete request, read from its events: the text
/// of each `Key` element, and whether the text of the last `Quiet` is `true`.
pub open spec fn delete_scan(ts: Seq<XmlToken>) -> DeleteScan
    decreases ts.len(),
{
    if ts.len() == 0 {
        DeleteScan { tag: Seq::empty(), keys: Seq::empty(), quiet: false, error: None }
    } else {
        let s = delete_scan(ts.drop_last());
        if s.error is Some {
            s
        } else {
            match ts.last() {
                XmlToken::Start(n) => DeleteScan { tag: n@, ..s },
                XmlToken::Text(t) => if s.tag == "Key"@ {
                    DeleteScan { keys: s.keys.push(t@), ..s }
                } else if s.tag == "Quiet"@ {
                    DeleteScan { quiet: t@ == "true"@, ..s }
                } else {
                    s
                },
                XmlToken::BadText(m) => DeleteScan { error: Some(m@), ..s },
                XmlToken::Fail(m) => DeleteScan { error: Some("XML parse error: "@ + m@), ..s },
                _ => s,
            }
        }
    }
}

/// Reads a delete request from its events.
pub fn delete_request_from_tokens(ts: &Vec<XmlToken>) -> (r: Result<(Vec<String>, bool), S3RequestError>)
    ensures
        match delete_scan(ts@).error {
            Some(m) => r matches Err(S3RequestError::BadRequest(x)) && x@ == m,
            None => r matches Ok((keys, quiet)) && crate::text::views(keys@) == delete_scan(ts@).keys
                && quiet == delete_scan(ts@).quiet,
        },
{
    let mut tag = String::new();
    let mut keys: Vec<String> = Vec::new();
    let mut quiet = false;
    let mut i: usize = 0;
    while i < ts.len()
        invariant
            i <= ts@.len(),
            delete_scan(ts@.subrange(0, i as int)).error is None,
            delete_scan(ts@.subrange(0, i as int)).tag == tag@,
            delete_scan(ts@.subrange(0, i as int)).keys == crate::text::views(keys@),
            delete_scan(ts@.subrange(0, i as int)).quiet == quiet,
        decreases ts@.len() - i,
    {
        let ghost pre = ts@.subrange(0, i + 1);
        assert(pre.drop_last() =~= ts@.subrange(0, i as int));
        match &ts[i] {
            XmlToken::Start(n) => {
                tag = n.clone();
            },
            XmlToken::Text(t) => {
                if str_eq(tag.as_str(), "Key") {
                    let ghost before = keys@;
                    keys.push(t.clone());
                    assert(crate::text::views(keys@) =~= crate::text::views(before).push(t@));
                } else if str_eq(tag.as_str(), "Quiet") {
                    quiet = str_eq(t.as_str(), "true");
                }
            },
            XmlToken::BadText(m) => {
                proof {
                    lemma_scan_stops(ts@, i as int);
                }
                return Err(S3RequestError::BadRequest(m.clone()));
            },
            XmlToken::Fail(m) => {
                let mut msg = String::new();
                append(&mut msg, "XML parse error: ");
                append(&mut msg, m.as_str());
                proof {
                    lemma_scan_stops(ts@, i as int);
                }
                return Err(S3RequestError::BadRequest(msg));
            },
            _ => {},
        }
        i = i + 1;
    }
    assert(ts@.subrange(0, ts@.len() as int) =~= ts@);
    Ok((keys, quiet))
}

/// Once reading a delete request has failed, later events change nothing.
pub proof fn lemma_scan_stops(ts: Seq<XmlToken>, i: int)
    requires
        0 <= i < ts.len(),
        delete_scan(ts.subrange(0, i + 1)).error is Some,
    ensures
        delete_scan(ts) == delete_scan(ts.subrange(0, i + 1)),
    decreases ts.len() - i,
{
    if i + 1 == ts.len() {
        assert(ts.subrange(0, i + 1) =~= ts);
    } else {
        assert(ts.drop_last().subrange(0, i + 1) =~= ts.subrange(0, i + 1));
        lemma_scan_stops(ts.drop_last(), i);
    }
}

/// Reads the keys and the quiet flag of a `DeleteObjects` request body from
/// the events the reader yields on it (see `delete_request_from_tokens`).
pub fn parse_delete_objects_request(body: &[u8]) -> (r: Result<(Vec<String>, bool), S3RequestError>)
    ensures
        exists|ts: Seq<XmlToken>|
            #![trigger token_events(ts)]
            token_events(ts) == xml_read(body@) && match delete_scan(ts).error {
                Some(m) => r matches Err(S3RequestError::BadRequest(x)) && x@ == m,
                None => r matches Ok((keys, quiet)) && crate::text::views(keys@) == delete_scan(ts).keys
                    && quiet == delete_scan(ts).quiet,
            },
{
    let ts = read_tokens(body);
    delete_request_from_tokens(&ts)
}

/// What reading a completion request has gathered: the current element, the
/// number and tag of the part being read, the parts so far, and the failure if
/// any.
pub struct PartScan {
    pub tag: Seq<char>,
    pub num: Option<i32>,
    pub etag: Option<Seq<char>>,
    pub parts: Seq<(i32, Seq<char>)>,
    pub error: Option<Seq<char>>,
}

/// `t` without the double quotes at either end.
pub open spec fn unquoted(t: Seq<char>) -> Seq<char> {
    trim_end_char(trim_start_char(t, '"'), '"')
}

/// The parts of a completion request, read from its events: at the close of
/// each `Part`, its `PartNumber` (when a number) and `ETag` (quoted again), both
/// then forgotten.
pub open spec fn part_scan(ts: Seq<XmlToken>) -> PartScan
    decreases ts.len(),
{
    if ts.len() == 0 {
        PartScan { tag: Seq::empty(), num: None, etag: None, parts: Seq::empty(), error: None }
    } else {
        let s = part_scan(ts.drop_last());
        if s.error is Some {
            s
        } else {
            match ts.last() {
                XmlToken::Start(n) => PartScan { tag: n@, ..s },
                XmlToken::Text(t) => if s.tag == "PartNumber"@ {
                    PartScan { num: parse_i32_spec(t@), ..s }
                } else if s.tag == "ETag"@ {
                    PartScan { etag: Some(unquoted(t@)), ..s }
                } else {
                    s
                },
                XmlToken::End(n) => if n@ == "Part"@ {
                    PartScan {
                        num: None,
                        etag: None,
                        parts: if s.num is Some && s.etag is Some {
                            s.parts.push((s.num->0, "\""@ + s.etag->0 + "\""@))
                        } else {
                            s.parts
                        },
                        ..s
                    }
                } else {
                    s
                },
                XmlToken::BadText(m) => PartScan { error: Some(m@), ..s },
                XmlToken::Fail(m) => PartScan { error: Some("XML parse error: "@ + m@), ..s },
                _ => s,
            }
        }
    }
}

/// Where a part numbered `key` goes in `s`: before the first with a larger number.
pub open spec fn first_greater(s: Seq<(i32, Seq<char>)>, key: i32) -> int
    decreases s.len(),
{
    if s.len() == 0 {
        0
    } else if s[0].0 > key {
        0
    } else {
        1 + first_greater(s.drop_first(), key)
    }
}

/// Parts sorted by number, those of equal number kept in their order.
pub open spec fn sorted_parts(ps: Seq<(i32, Seq<char>)>) -> Seq<(i32, Seq<char>)>
    decreases ps.len(),
{
    if ps.len() == 0 {
        Seq::empty()
    } else {
        let s = sorted_parts(ps.drop_last());
        s.insert(first_greater(s, ps.last().0), ps.last())
    }
}

/// The number and tag of each part.
pub open spec fn part_pairs(v: Seq<CompletedPart>) -> Seq<(i32, Seq<char>)> {
    v.map_values(|p: CompletedPart| (p.part_number, p.etag@))
}

/// `first_greater` lies within the sequence.
pub proof fn lemma_first_greater_bound(s: Seq<(i32, Seq<char>)>, key: i32)
    ensures
        0 <= first_greater(s, key) <= s.len(),
        forall|j: int| 0 <= j < first_greater(s, key) ==> s[j].0 <= key,
    decreases s.len(),
{
    if s.len() > 0 && s[0].0 <= key {
        lemma_first_greater_bound(s.drop_first(), key);
        assert forall|j: int| 0 <= j < first_greater(s, key) implies s[j].0 <= key by {
            if j > 0 {
                assert(s[j] == s.drop_first()[j - 1]);
            }
        }
    }
}

/// Where a part numbered `key` goes in `v`.
fn insert_position(v: &Vec<CompletedPart>, key: i32) -> (r: usize)
    ensures
        r == first_greater(part_pairs(v@), key),
{
    let ghost pv = part_pairs(v@);
    let mut i: usize = 0;
    assert(pv.subrange(0, pv.len() as int) =~= pv);
    while i < v.len() && v[i].part_number <= key
        invariant
            pv == part_pairs(v@),
            i <= v@.len(),
            first_greater(pv, key) == i + first_greater(pv.subrange(i as int, pv.len() as int), key),
        decreases v@.len() - i,
    {
        let ghost rest = pv.subrange(i as int, pv.len() as int);
        assert(rest.drop_first() =~= pv.subrange(i + 1, pv.len() as int));
        i = i + 1;
    }
    proof {
        if i < v@.len() {
            assert(pv.subrange(i as int, pv.len() as int)[0] == pv[i as int]);
        } else {
            assert(pv.subrange(i as int, pv.len() as int).len() == 0);
        }
    }
    i
}

/// Sorts parts by number, keeping those of equal number in their order.
pub fn sort_parts(v: Vec<CompletedPart>) -> (r: Vec<CompletedPart>)
    ensures
        part_pairs(r@) == sorted_parts(part_pairs(v@)),
{
    let ghost pv = part_pairs(v@);
    let mut out: Vec<CompletedPart> = Vec::new();
    let mut i: usize = 0;
    while i < v.len()
        invariant
            pv == part_pairs(v@),
            i <= v@.len(),
            part_pairs(out@) == sorted_parts(pv.subrange(0, i as int)),
        decreases v@.len() - i,
    {
        let p = CompletedPart { part_number: v[i].part_number, etag: v[i].etag.clone() };
        let pos = insert_position(&out, p.part_number);
        proof {
            lemma_first_greater_bound(part_pairs(out@), p.part_number);
        }
        let ghost before = out@;
        out.insert(pos, p);
        assert(pv.subrange(0, i + 1).drop_last() =~= pv.subrange(0, i as int));
        assert(pv.subrange(0, i + 1).last() == pv[i as int]);
        assert(part_pairs(out@) =~= part_pairs(before).insert(pos as int, pv[i as int]));
        i = i + 1;
    }
    assert(pv.subrange(0, pv.len() as int) =~= pv);
    out
}

/// Once reading a completion request has failed, later events change nothing.
pub proof fn lemma_part_scan_stops(ts: Seq<XmlToken>, i: int)
    requires
        0 <= i < ts.len(),
        part_scan(ts.subrange(0, i + 1)).error is Some,
    ensures
        part_scan(ts) == part_scan(ts.subrange(0, i + 1)),
    decreases ts.len() - i,
{
    if i + 1 == ts.len() {
        assert(ts.subrange(0, i + 1) =~= ts);
    } else {
        assert(ts.drop_last().subrange(0, i + 1) =~= ts.subrange(0, i + 1));
        lemma_part_scan_stops(ts.drop_last(), i);
    }
}

/// Reads a completion request from its events; the parts come sorted by number.
pub fn complete_request_from_tokens(ts: &Vec<XmlToken>) -> (r: Result<Vec<CompletedPart>, S3RequestError>)
    ensures
        match part_scan(ts@).error {
            Some(m) => r matches Err(S3RequestError::BadRequest(x)) && x@ == m,
            None => r matches Ok(parts) && part_pairs(parts@) == sorted_parts(part_scan(ts@).parts),
        },
{
    let mut tag = String::new();
    let mut num: Option<i32> = None;
    let mut etag: Option<String> = None;
    let mut parts: Vec<CompletedPart> = Vec::new();
    let mut i: usize = 0;
    while i < ts.len()
        invariant
            i <= ts@.len(),
            part_scan(ts@.subrange(0, i as int)).error is None,
            part_scan(ts@.subrange(0, i as int)).tag == tag@,
            part_scan(ts@.subrange(0, i as int)).num == num,
            part_scan(ts@.subrange(0, i as int)).etag == crate::ses::state::opt_text(etag),
            part_scan(ts@.subrange(0, i as int)).parts == part_pairs(parts@),
        decreases ts@.len() - i,
    {
        let ghost pre = ts@.subrange(0, i + 1);
        assert(pre.drop_last() =~= ts@.subrange(0, i as int));
        match &ts[i] {
            XmlToken::Start(n) => {
                tag = n.clone();
            },
            XmlToken::Text(t) => {
                if str_eq(tag.as_str(), "PartNumber") {
                    num = parse_i32(t.as_str());
                } else if str_eq(tag.as_str(), "ETag") {
                    let a = trim_start_matches_char(t.as_str(), '"');
                    let b = trim_end_matches_char(a.as_str(), '"');
                    etag = Some(b);
                }
            },
            XmlToken::End(n) => {
                if str_eq(n.as_str(), "Part") {
                    let ghost before = parts@;
                    match (&num, &etag) {
                        (Some(k), Some(e)) => {
                            let mut q = String::new();
                            append(&mut q, "\"");
                            append(&mut q, e.as_str());
                            append(&mut q, "\"");
                            parts.push(CompletedPart { part_number: *k, etag: q });
                            assert(part_pairs(parts@) =~= part_pairs(before).push((*k, "\""@ + e@ + "\""@)));
                        },
                        _ => {},
                    }
                    num = None;
                    etag = None;
                }
            },
            XmlToken::BadText(m) => {
                proof {
                    lemma_part_scan_stops(ts@, i as int);
                }
                return Err(S3RequestError::BadRequest(m.clone()));
            },
            XmlToken::Fail(m) => {
                let mut msg = String::new();
                append(&mut msg, "XML parse error: ");
                append(&mut msg, m.as_str());
                proof {
                    lemma_part_scan_stops(ts@, i as int);
                }
                return Err(S3RequestError::BadRequest(msg));
            },
            _ => {},
        }
        i = i + 1;
    }
    assert(ts@.subrange(0, ts@.len() as int) =~= ts@);
    Ok(sort_parts(parts))
}

/// Reads the parts of a `CompleteMultipartUpload` request body, sorted by
/// number, from the events the reader yields on it (see
/// `complete_request_from_tokens`).
pub fn parse_complete_multipart_request(body: &[u8]) -> (r: Result<Vec<CompletedPart>, S3RequestError>)
    ensures
        exists|ts: Seq<XmlToken>|
            #![trigger token_events(ts)]
            token_events(ts) == xml_read(body@) && match part_scan(ts).error {
                Some(m) => r matches Err(S3RequestError::BadRequest(x)) && x@ == m,
                None => r matches Ok(parts) && part_pairs(parts@) == sorted_parts(part_scan(ts).parts),
            },
{
    let ts = read_tokens(body);
    complete_request_from_tokens(&ts)
}

/// Where `c` first stands in `s` (its length when it does not occur).
pub open spec fn char_pos(s: Seq<char>, c: char) -> int
    decreases s.len(),
{
    if s.len() == 0 {
        0
    } else if s[0] == c {
        0
    } else {
        1 + char_pos(s.drop_first(), c)
    }
}

/// `char_pos` lies within the sequence, and nothing before it is `c`.
pub proof fn lemma_char_pos(s: Seq<char>, c: char)
    ensures
        0 <= char_pos(s, c) <= s.len(),
        char_pos(s, c) < s.len() ==> s[char_pos(s, c)] == c,
    decreases s.len(),
{
    if s.len() > 0 && s[0] != c {
        lemma_char_pos(s.drop_first(), c);
    }
}

/// Where `c` first stands in `v` (its length when it does not occur).
fn char_position(v: &Vec<char>, c: char) -> (r: usize)
    ensures
        r == char_pos(v@, c),
{
    let mut i: usize = 0;
    assert(v@.subrange(0, v@.len() as int) =~= v@);
    while i < v.len() && v[i] != c
        invariant
            i <= v@.len(),
            char_pos(v@, c) == i + char_pos(v@.subrange(i as int, v@.len() as int), c),
        decreases v@.len() - i,
    {
        let ghost rest = v@.subrange(i as int, v@.len() as int);
        assert(rest.drop_first() =~= v@.subrange(i + 1, v@.len() as int));
        i = i + 1;
    }
    proof {
        if i < v@.len() {
            assert(v@.subrange(i as int, v@.len() as int)[0] == v@[i as int]);
        }
    }
    i
}

/// The bucket a `Host` header names in the virtual-hosted style: what comes
/// before `.s3.` in the host name, or before a `.localhost` ending (but not
/// `localhost` or `s3` themselves). The port is ignored.
pub open spec fn virtual_bucket(host: Option<Seq<char>>) -> Option<Seq<char>> {
    match host {
        None => None,
        Some(h) => {
            let hn = h.subrange(0, char_pos(h, ':'));
            match find_sub(hn, ".s3."@) {
                Some(p) => Some(hn.subrange(0, p as int)),
                None => if is_suffix(".localhost"@, hn) {
                    let st = hn.subrange(0, hn.len() - 10);
                    if st.len() > 0 && st != "localhost"@ && st != "s3"@ { Some(st) } else { None }
                } else {
                    None
                },
            }
        },
    }
}

/// The bucket and key a request names: by its host when virtual-hosted (the
/// whole path then being the key), else the first path segment and the rest.
/// An empty key counts as none.
pub open spec fn bucket_and_key(path: Seq<char>, host: Option<Seq<char>>) -> (Option<Seq<char>>, Option<Seq<char>>) {
    let t = trim_start_char(path, '/');
    match virtual_bucket(host) {
        Some(b) => (Some(b), if t.len() == 0 { None } else { Some(t) }),
        None => if t.len() == 0 {
            (None, None)
        } else {
            let p = char_pos(t, '/');
            if p >= t.len() {
                (Some(t), None)
            } else if p + 1 == t.len() {
                (Some(t.subrange(0, p)), None)
            } else {
                (Some(t.subrange(0, p)), Some(t.subrange(p + 1, t.len() as int)))
            }
        },
    }
}

/// The bucket named by a `Host` header, if virtual-hosted.
fn virtual_bucket_of(host: Option<&str>) -> (r: Option<String>)
    ensures
        crate::ses::state::opt_text(r) == virtual_bucket(match host { Some(h) => Some(h@), None => None }),
{
    match host {
        None => None,
        Some(h) => {
            let hv = to_chars(h);
            let colon = char_position(&hv, ':');
            proof { lemma_char_pos(h@, ':'); }
            let hn = chars_to_string(hv.as_slice(), 0, colon);
            let hnv = to_chars(hn.as_str());
            let pat: Vec<char> = vec!['.', 's', '3', '.'];
            proof {
                reveal_strlit(".s3.");
                assert(pat@ =~= ".s3."@);
                assert(hnv@.subrange(0, hnv@.len() as int) =~= hnv@);
            }
            match find_sub_exec(&hnv, 0, &pat) {
                Some(p) => {
                    proof { crate::text::lemma_find_sub_bound(hn@, ".s3."@); }
                    Some(chars_to_string(hnv.as_slice(), 0, p))
                },
                None => {
                    if ends_with(hn.as_str(), ".localhost") {
                        proof { reveal_strlit(".localhost"); }
                        let st = chars_to_string(hnv.as_slice(), 0, hnv.len() - 10);
                        if hnv.len() > 10 && !str_eq(st.as_str(), "localhost") && !str_eq(st.as_str(), "s3") {
                            Some(st)
                        } else {
                            None
                        }
                    } else {
                        None
                    }
                },
            }
        },
    }
}

/// The bucket and key a request names, by its path and `Host` header.
pub fn extract_bucket_and_key(path: &str, host: Option<&str>) -> (r: (Option<String>, Option<String>))
    ensures
        (crate::ses::state::opt_text(r.0), crate::ses::state::opt_text(r.1)) == bucket_and_key(
            path@,
            match host { Some(h) => Some(h@), None => None },
        ),
{
    let t = trim_start_matches_char(path, '/');
    match virtual_bucket_of(host) {
        Some(b) => {
            if t.as_str().is_empty() {
                (Some(b), None)
            } else {
                (Some(b), Some(t))
            }
        },
        None => {
            let tv = to_chars(t.as_str());
            if tv.len() == 0 {
                return (None, None);
            }
            let p = char_position(&tv, '/');
            proof { lemma_char_pos(t@, '/'); }
            if p >= tv.len() {
                (Some(t), None)
            } else if p + 1 == tv.len() {
                (Some(chars_to_string(tv.as_slice(), 0, p)), None)
            } else {
                (Some(chars_to_string(tv.as_slice(), 0, p)), Some(chars_to_string(tv.as_slice(), p + 1, tv.len())))
            }
        },
    }
}

/// The status, code, message and resource of an error.
pub open spec fn error_parts(e: S3RequestError) -> (u16, Seq<char>, Seq<char>, Option<Seq<char>>) {
    match e {
        S3RequestError::Storage(s) => (
            match s.kind {
                S3ErrorKind::NoSuchBucket | S3ErrorKind::NoSuchKey | S3ErrorKind::NoSuchUpload => 404u16,
                S3ErrorKind::BucketAlreadyOwnedByYou | S3ErrorKind::BucketNotEmpty => 409u16,
                S3ErrorKind::InvalidRange => 416u16,
                S3ErrorKind::InvalidPart | S3ErrorKind::MalformedXml => 400u16,
            },
            s.kind.code_spec(),
            s.kind.message_spec(),
            crate::ses::state::opt_text(s.resource),
        ),
        S3RequestError::BadRequest(m) => (400u16, "BadRequest"@, m@, None),
        S3RequestError::InvalidArgument(m) => (400u16, "InvalidArgument"@, m@, None),
        S3RequestError::NotFound(m) => (404u16, "NotFound"@, m@, None),
    }
}

/// The XML body of an error answer.
pub open spec fn s3_error_xml(code: Seq<char>, message: Seq<char>, resource: Option<Seq<char>>, rid: Seq<char>) -> Seq<char> {
    "<?xml version=\"1.0\" encoding=\"UTF-8\"?>\n<Error>\n    <Code>"@ + code + "</Code>\n    <Message>"@
        + xml_escaped(message) + "</Message>\n"@ + match resource {
        Some(r) => "    <Resource>"@ + xml_escaped(r) + "</Resource>\n"@,
        None => Seq::empty(),
    } + "    <RequestId>"@ + rid + "</RequestId>\n</Error>"@
}

/// The bytes of a text.
pub open spec fn text_bytes(s: Seq<char>) -> Seq<u8> {
    vstd::utf8::encode_utf8(s)
}

/// The answer to a failed request: its status, the XML error, and the
/// content type and request id headers.
pub fn make_s3_error_response(err: &S3RequestError, request_id: &str) -> (r: S3Response)
    ensures
        r.status == error_parts(*err).0,
        r.body@ == text_bytes(s3_error_xml(error_parts(*err).1, error_parts(*err).2, error_parts(*err).3, request_id@)),
        pairs_view(r.headers@) == seq![("content-type"@, "application/xml"@), ("x-amz-request-id"@, request_id@)],
{
    let mut x = String::new();
    append(&mut x, "<?xml version=\"1.0\" encoding=\"UTF-8\"?>\n<Error>\n    <Code>");
    let status: u16;
    match err {
        S3RequestError::Storage(s) => {
            status = s.kind.status();
            append(&mut x, s.kind.code());
            append(&mut x, "</Code>\n    <Message>");
            append_escaped(&mut x, s.kind.message());
            append(&mut x, "</Message>\n");
            match &s.resource {
                Some(res) => {
                    append(&mut x, "    <Resource>");
                    append_escaped(&mut x, res.as_str());
                    append(&mut x, "</Resource>\n");
                },
                None => {},
            }
        },
        S3RequestError::BadRequest(m) => {
            status = 400;
            append(&mut x, "BadRequest");
            append(&mut x, "</Code>\n    <Message>");
            append_escaped(&mut x, m.as_str());
            append(&mut x, "</Message>\n");
        },
        S3RequestError::InvalidArgument(m) => {
            status = 400;
            append(&mut x, "InvalidArgument");
            append(&mut x, "</Code>\n    <Message>");
            append_escaped(&mut x, m.as_str());
            append(&mut x, "</Message>\n");
        },
        S3RequestError::NotFound(m) => {
            status = 404;
            append(&mut x, "NotFound");
            append(&mut x, "</Code>\n    <Message>");
            append_escaped(&mut x, m.as_str());
            append(&mut x, "</Message>\n");
        },
    }
    append(&mut x, "    <RequestId>");
    append(&mut x, request_id);
    append(&mut x, "</RequestId>\n</Error>");
    assert(x@ =~= s3_error_xml(error_parts(*err).1, error_parts(*err).2, error_parts(*err).3, request_id@));
    let headers: Vec<(String, String)> = vec![
        ("content-type".to_owned(), "application/xml".to_owned()),
        ("x-amz-request-id".to_owned(), request_id.to_owned()),
    ];
    assert(pairs_view(headers@) =~= seq![("content-type"@, "application/xml"@), ("x-amz-request-id"@, request_id@)]);
    S3Response { status, headers, body: crate::runtime::utf8_bytes(x.as_str()) }
}

/// A response with the request id header (after `headers`) and no body.
fn plain_response(status: u16, headers: Vec<(String, String)>, request_id: &str) -> (r: S3Response)
    ensures
        r.status == status,
        pairs_view(r.headers@) == pairs_view(headers@).push(("x-amz-request-id"@, request_id@)),
        pairs_view(r.headers@).contains(("x-amz-request-id"@, request_id@)),
        r.body@.len() == 0,
{
    let mut hs = headers;
    let ghost before = hs@;
    hs.push(("x-amz-request-id".to_owned(), request_id.to_owned()));
    assert(pairs_view(hs@) =~= pairs_view(before).push(("x-amz-request-id"@, request_id@)));
    assert(pairs_view(hs@)[pairs_view(hs@).len() - 1] == ("x-amz-request-id"@, request_id@));
    S3Response { status, headers: hs, body: Vec::new() }
}

/// A 200 response carrying an XML body.
fn xml_response(xml: String, request_id: &str) -> (r: S3Response)
    ensures
        r.status == 200,
        pairs_view(r.headers@) == seq![("content-type"@, "application/xml"@), ("x-amz-request-id"@, request_id@)],
        pairs_view(r.headers@).contains(("x-amz-request-id"@, request_id@)),
        r.body@ == text_bytes(xml@),
{
    let headers: Vec<(String, String)> = vec![
        ("content-type".to_owned(), "application/xml".to_owned()),
        ("x-amz-request-id".to_owned(), request_id.to_owned()),
    ];
    assert(pairs_view(headers@) =~= seq![("content-type"@, "application/xml"@), ("x-amz-request-id"@, request_id@)]);
    assert(pairs_view(headers@)[1] == ("x-amz-request-id"@, request_id@));
    S3Response { status: 200, headers, body: crate::runtime::utf8_bytes(xml.as_str()) }
}

/// The headers that describe an object: type, length, tag, time, ranges, the
/// request id, then its user metadata.
/// The headers that describe an object: its type, length, ETag, time of last
/// change (in RFC 2822 form when it reads as RFC 3339), byte ranges, the
/// request id, then its user metadata.
pub open spec fn object_header_pairs(m: MetaView, rid: Seq<char>) -> Seq<(Seq<char>, Seq<char>)> {
    seq![
        ("content-type"@, m.content_type),
        ("content-length"@, crate::text::decimal(m.size as nat)),
        ("etag"@, m.etag),
        ("last-modified"@, match crate::runtime::rfc2822_of(m.last_modified) {
            Some(t) => t,
            None => m.last_modified,
        }),
        ("accept-ranges"@, "bytes"@),
        ("x-amz-request-id"@, rid),
    ] + m.user_metadata
}

fn object_headers(meta: &crate::s3::storage::ObjectMetadata, request_id: &str) -> (r: Vec<(String, String)>)
    ensures
        pairs_view(r@).contains(("x-amz-request-id"@, request_id@)),
        pairs_view(r@) == object_header_pairs(meta@, request_id@),
{
    let mut hs: Vec<(String, String)> = Vec::new();
    hs.push(("content-type".to_owned(), meta.content_type.clone()));
    hs.push(("content-length".to_owned(), crate::text::u64_to_string(meta.size)));
    hs.push(("etag".to_owned(), meta.etag.clone()));
    let lm = match crate::runtime::rfc2822_from_rfc3339(meta.last_modified.as_str()) {
        Some(t) => t,
        None => meta.last_modified.clone(),
    };
    hs.push(("last-modified".to_owned(), lm));
    hs.push(("accept-ranges".to_owned(), "bytes".to_owned()));
    hs.push(("x-amz-request-id".to_owned(), request_id.to_owned()));
    assert(pairs_view(hs@)[5] == ("x-amz-request-id"@, request_id@));
    proof {
        reveal_strlit("bytes");
    }
    let ghost head = pairs_view(hs@);
    let ghost um = pairs_view(meta.user_metadata@);
    assert(head =~= object_header_pairs(meta@, request_id@).subrange(0, 6));
    let ghost n = hs@.len();
    let mut i: usize = 0;
    assert(um.subrange(0, 0) =~= Seq::<(Seq<char>, Seq<char>)>::empty());
    assert(pairs_view(hs@) =~= head + um.subrange(0, 0));
    while i < meta.user_metadata.len()
        invariant
            n == 6,
            hs@.len() == n + i,
            i <= meta.user_metadata@.len(),
            um == pairs_view(meta.user_metadata@),
            pairs_view(hs@)[5] == ("x-amz-request-id"@, request_id@),
            pairs_view(hs@) == head + um.subrange(0, i as int),
        decreases meta.user_metadata@.len() - i,
    {
        let (k, v) = &meta.user_metadata[i];
        let ghost before = pairs_view(hs@);
        hs.push((k.clone(), v.clone()));
        assert(pairs_view(hs@)[5] == ("x-amz-request-id"@, request_id@));
        assert(pairs_view(hs@) =~= before.push((k@, v@)));
        assert(um[i as int] == (k@, v@));
        assert(um.subrange(0, i + 1) =~= um.subrange(0, i as int).push(um[i as int]));
        assert(pairs_view(hs@) =~= head + um.subrange(0, i + 1));
        i = i + 1;
    }
    assert(um.subrange(0, um.len() as int) =~= um);
    assert(pairs_view(hs@)[5] == ("x-amz-request-id"@, request_id@));
    assert(pairs_view(hs@) =~= object_header_pairs(meta@, request_id@));
    hs
}

/// What a request may be asked, without making a read fail: a byte range it
/// names for an existing object must not end before it starts (such a read
/// cannot be answered).
pub open spec fn range_request_sane(
    s: InMemoryStorage,
    m: S3Method,
    b: Option<Seq<char>>,
    k: Option<Seq<char>>,
    q: Map<Seq<char>, Seq<char>>,
    hs: Seq<(String, Option<String>)>,
) -> bool {
    (m == S3Method::Get && b is Some && k is Some && !has_param(q, "uploadId"@) && header_text(hs, "range"@) is Some
        && s@.contains_key(b->0) && s@[b->0].objects.contains_key(k->0)) ==> range_is_sane(
        byte_range_of(header_text(hs, "range"@)->0, s@[b->0].objects[k->0].meta.size),
    )
}

/// A part as stored from the bytes of an upload, modified at `lm`.
pub open spec fn uploaded_part(data: Seq<u8>, lm: Seq<char>) -> PartView {
    PartView { etag: etag_of(data), size: data.len() as u64, data: data, last_modified: lm }
}

/// The bucket and key that an `x-amz-copy-source` header names: leading
/// slashes dropped, then the text before the first `/` and the text after it.
pub open spec fn copy_source(h: Seq<char>) -> (Seq<char>, Seq<char>) {
    let c = trim_start_char(h, '/');
    let p = char_pos(c, '/');
    (c.subrange(0, p), if p < c.len() { c.subrange(p + 1, c.len() as int) } else { Seq::empty() })
}

/// Whether reading an object succeeds: the bucket and the object exist, and
/// a byte range the request names starts within the object.
pub open spec fn get_succeeds(s: InMemoryStorage, b: Seq<char>, k: Seq<char>, hs: Seq<(String, Option<String>)>) -> bool {
    &&& s@.contains_key(b) && s@[b].objects.contains_key(k)
    &&& match header_text(hs, "range"@) {
        Some(h) => match byte_range_of(h, s@[b].objects[k].meta.size) {
            Some(rg) => rg.start < s@[b].objects[k].meta.size,
            None => true,
        },
        None => true,
    }
}

/// What dispatching did: the operation chosen by `s3_op`; reads leave the
/// storage as it was; an unknown route and an unsupported upload action fail
/// with their own errors; a success answers the operation's status (206 for a
/// ranged read) with the request id, and a read of an object answers its bytes.
/// For the object and bucket operations it also states when they succeed, the
/// storage they leave (that of the storage operation), the body of a listing,
/// location, part listing, batch delete or new upload, and the `etag` and
/// `content-range` headers.
pub open spec fn dispatched(
    s0: InMemoryStorage,
    s1: InMemoryStorage,
    m: S3Method,
    b: Option<Seq<char>>,
    k: Option<Seq<char>>,
    q: Map<Seq<char>, Seq<char>>,
    hs: Seq<(String, Option<String>)>,
    data: Seq<u8>,
    rid: Seq<char>,
    r: Result<S3Response, S3RequestError>,
) -> bool {
    let op = s3_op(m, b is Some, k is Some, q, header_text(hs, "x-amz-copy-source"@) is Some);
    &&& reads_only(op) ==> s1@ == s0@
    &&& op == S3Op::GetObject ==> {
        &&& (r is Ok <==> get_succeeds(s0, b->0, k->0, hs))
        &&& r matches Ok(resp) ==> (resp.status == 206 ==> {
            let size = s0@[b->0].objects[k->0].meta.size;
            let rg = byte_range_of(header_text(hs, "range"@)->0, size)->0;
            pairs_view(resp.headers@).contains(
                ("content-range"@, content_range_text(rg.start, crate::s3::storage::range_end(rg, size), size)),
            )
        })
    }
    &&& op == S3Op::ListObjectsV2 ==> {
        &&& (r is Ok <==> s0@.contains_key(b->0))
        &&& r matches Ok(resp) ==> exists|res: ListObjectsV2Result|
            #[trigger] listed_v2(
                s0,
                b->0,
                crate::rds::handlers::param_text(q, "prefix"@),
                crate::rds::handlers::param_text(q, "delimiter"@),
                max_keys_spec(q),
                crate::rds::handlers::param_text(q, "continuation-token"@),
                crate::rds::handlers::param_text(q, "start-after"@),
                Ok(res),
            ) && resp.body@ == text_bytes(list_objects_v2_xml(res))
    }
    &&& op == S3Op::PutObject ==> {
        &&& (r is Ok <==> s0@.contains_key(b->0))
        &&& r matches Ok(resp) ==> {
            &&& pairs_view(resp.headers@).contains(("etag"@, etag_of(data)))
            &&& exists|md: MetaView|
                #![trigger object_view(md, data)]
                md.key == k->0 && md.size == data.len() && md.etag == etag_of(data) && s1@ == s0@.insert(
                    b->0,
                    with_object(s0@[b->0], k->0, object_view(md, data)),
                )
        }
    }
    &&& op == S3Op::DeleteObject ==> {
        &&& (r is Ok <==> s0@.contains_key(b->0))
        &&& r is Ok ==> s1@ == s0@.insert(b->0, without_object(s0@[b->0], k->0))
    }
    &&& op == S3Op::CreateBucket ==> {
        &&& (r is Ok <==> !s0@.contains_key(b->0))
        &&& r is Ok ==> s1@ == s0@.insert(
            b->0,
            BucketView {
                name: b->0,
                region: "us-east-1"@,
                creation_date: s1@[b->0].creation_date,
                objects: Map::empty(),
                uploads: Map::empty(),
            },
        )
    }
    &&& op == S3Op::UploadPart ==> {
        let uid = crate::rds::handlers::param_text(q, "uploadId"@)->0;
        let pn = parse_i32_spec(crate::rds::handlers::param_text(q, "partNumber"@)->0);
        let u = s0@[b->0].uploads[uid];
        &&& (r is Ok <==> (pn is Some && s0@.contains_key(b->0) && s0@[b->0].uploads.contains_key(uid)))
        &&& r matches Ok(resp) ==> {
            &&& pairs_view(resp.headers@).contains(("etag"@, etag_of(data)))
            &&& exists|lm: Seq<char>|
                #![trigger uploaded_part(data, lm)]
                s1@ == s0@.insert(
                    b->0,
                    with_upload(
                        s0@[b->0],
                        uid,
                        UploadView {
                            parts: u.parts.insert(
                                pn->0,
                                uploaded_part(data, lm),
                            ),
                            ..u
                        },
                    ),
                )
        }
    }
    &&& op == S3Op::GetBucketLocation ==> {
        &&& (r is Ok <==> s0@.contains_key(b->0))
        &&& r matches Ok(resp) ==> resp.body@ == text_bytes(bucket_location_xml(s0@[b->0].region))
    }
    &&& op == S3Op::ListParts ==> {
        let uid = crate::rds::handlers::param_text(q, "uploadId"@)->0;
        &&& (r is Ok <==> (s0@.contains_key(b->0) && s0@[b->0].uploads.contains_key(uid)))
        &&& r matches Ok(resp) ==> exists|ps: Seq<PartInfo>|
            #![trigger list_parts_xml(b->0, k->0, uid, ps)]
            lists_parts(ps, s0@[b->0].uploads[uid].parts) && resp.body@ == text_bytes(list_parts_xml(b->0, k->0, uid, ps))
    }
    &&& op == S3Op::DeleteObjects && r is Ok ==> exists|keys: Seq<Seq<char>>|
        #![trigger delete_result_xml(keys, Seq::empty())]
        s0@.contains_key(b->0) && s1@ == s0@.insert(
            b->0,
            BucketView { objects: s0@[b->0].objects.remove_keys(keys.to_set()), ..s0@[b->0] },
        ) && r->Ok_0.body@ == text_bytes(delete_result_xml(keys, Seq::empty()))
    &&& op == S3Op::ListBuckets ==> {
        &&& r is Ok
        &&& r matches Ok(resp) ==> exists|bs: Seq<BucketInfo>|
            #![trigger list_buckets_xml(bs)]
            buckets_listed(s0, bs) && resp.body@ == text_bytes(list_buckets_xml(bs))
    }
    &&& op == S3Op::CopyObject ==> {
        let src = copy_source(header_text(hs, "x-amz-copy-source"@)->0);
        let obj = s0@[src.0].objects[src.1];
        &&& (r is Ok <==> (s0@.contains_key(src.0) && s0@[src.0].objects.contains_key(src.1) && s0@.contains_key(b->0)))
        &&& r matches Ok(resp) ==> exists|md: MetaView|
            #![trigger object_view(md, obj.data)]
            md.key == k->0 && md.etag == etag_of(obj.data) && resp.body@ == text_bytes(copy_object_xml(md.etag, md.last_modified))
                && s1@ == s0@.insert(b->0, with_object(s0@[b->0], k->0, object_view(md, obj.data)))
    }
    &&& op == S3Op::DeleteBucket ==> {
        &&& (r is Ok <==> (s0@.contains_key(b->0) && s0@[b->0].objects.dom().len() == 0))
        &&& r is Ok ==> s1@ == s0@.remove(b->0)
    }
    &&& op == S3Op::HeadBucket ==> (r is Ok <==> s0@.contains_key(b->0))
    &&& op == S3Op::HeadObject ==> {
        &&& (r is Ok <==> (s0@.contains_key(b->0) && s0@[b->0].objects.contains_key(k->0)))
        &&& r matches Ok(resp) ==> pairs_view(resp.headers@) == object_header_pairs(s0@[b->0].objects[k->0].meta, rid)
    }
    &&& op == S3Op::AbortMultipartUpload ==> {
        let uid = crate::rds::handlers::param_text(q, "uploadId"@)->0;
        &&& (r is Ok <==> (s0@.contains_key(b->0) && s0@[b->0].uploads.contains_key(uid)))
        &&& r is Ok ==> s1@ == s0@.insert(b->0, without_upload(s0@[b->0], uid))
    }
    &&& op == S3Op::CreateMultipartUpload ==> {
        &&& (r is Ok <==> s0@.contains_key(b->0))
        &&& r matches Ok(resp) ==> exists|id: Seq<char>|
            #![trigger initiate_multipart_xml(b->0, k->0, id)]
            id.len() == 36 && resp.body@ == text_bytes(initiate_multipart_xml(b->0, k->0, id)) && s1@ == s0@.insert(
                b->0,
                with_upload(
                    s0@[b->0],
                    id,
                    UploadView {
                        key: k->0,
                        content_type: header_text(hs, "content-type"@),
                        user_metadata: meta_pairs(hs),
                        parts: Map::empty(),
                    },
                ),
            )
    }
    &&& op == S3Op::CompleteMultipartUpload && r is Ok ==> {
        let uid = crate::rds::handlers::param_text(q, "uploadId"@)->0;
        let u = s0@[b->0].uploads[uid];
        exists|ps: Seq<CompletedPart>, md: MetaView|
            #![trigger concat_parts(u.parts, ps), object_view(md, concat_parts(u.parts, ps)->0)]
            concat_parts(u.parts, ps) is Some && md.key == k->0 && md.size == concat_parts(u.parts, ps)->0.len() as u64
                && md.etag == etag_of(concat_parts(u.parts, ps)->0) && s1@ == s0@.insert(
                b->0,
                with_object(without_upload(s0@[b->0], uid), k->0, object_view(md, concat_parts(u.parts, ps)->0)),
            )
    }
    &&& match op {
        S3Op::Unknown => r matches Err(S3RequestError::NotFound(x)) && x@ == "Endpoint not found"@,
        S3Op::UnsupportedPost => r matches Err(S3RequestError::BadRequest(x)) && x@ == "Unsupported POST operation on key"@,
        _ => match r {
            Ok(resp) => {
                &&& (resp.status == op_status(op) || (op == S3Op::GetObject && resp.status == 206))
                &&& pairs_view(resp.headers@).contains(("x-amz-request-id"@, rid))
                &&& op == S3Op::GetObject ==> {
                    let obj = s0@[b->0].objects[k->0];
                    &&& s0@.contains_key(b->0) && s0@[b->0].objects.contains_key(k->0)
                    &&& match header_text(hs, "range"@) {
                        Some(h) => match byte_range_of(h, obj.meta.size) {
                            Some(rg) => resp.status == 206 && resp.body@ == obj.data.subrange(
                                rg.start as int,
                                crate::s3::storage::range_end(rg, obj.meta.size) + 1,
                            ),
                            None => resp.status == 200 && resp.body@ == obj.data,
                        },
                        None => resp.status == 200 && resp.body@ == obj.data,
                    }
                }
                &&& (op == S3Op::HeadObject || op == S3Op::PutObject || op == S3Op::CreateBucket) ==> resp.body@.len() == 0
            },
            Err(e) => e is Storage || (e is BadRequest && (op == S3Op::DeleteObjects || op == S3Op::CompleteMultipartUpload))
                || (e is InvalidArgument && op == S3Op::UploadPart),
        },
    }
}

/// Reads an object, or the byte range its `range` header names.
fn get_object_op(
    storage: &InMemoryStorage,
    bucket: &str,
    key: &str,
    headers: &Vec<(String, Option<String>)>,
    request_id: &str,
) -> (r: Result<S3Response, S3RequestError>)
    requires
        storage.wf(),
        header_text(headers@, "range"@) is Some && storage@.contains_key(bucket@) && storage@[bucket@].objects.contains_key(key@)
            ==> range_is_sane(byte_range_of(header_text(headers@, "range"@)->0, storage@[bucket@].objects[key@].meta.size)),
    ensures
        match r {
            Ok(resp) => {
                let obj = storage@[bucket@].objects[key@];
                &&& storage@.contains_key(bucket@) && storage@[bucket@].objects.contains_key(key@)
                &&& pairs_view(resp.headers@).contains(("x-amz-request-id"@, request_id@))
                &&& match header_text(headers@, "range"@) {
                    Some(h) => match byte_range_of(h, obj.meta.size) {
                        Some(rg) => resp.status == 206 && resp.body@ == obj.data.subrange(
                            rg.start as int,
                            crate::s3::storage::range_end(rg, obj.meta.size) + 1,
                        ),
                        None => resp.status == 200 && resp.body@ == obj.data,
                    },
                    None => resp.status == 200 && resp.body@ == obj.data,
                }
            },
            Err(e) => e is Storage,
        },
        r is Ok <==> get_succeeds(*storage, bucket@, key@, headers@),
        r matches Ok(resp) ==> (resp.status == 206 ==> {
            let size = storage@[bucket@].objects[key@].meta.size;
            let rg = byte_range_of(header_text(headers@, "range"@)->0, size)->0;
            pairs_view(resp.headers@).contains(("content-range"@, content_range_text(rg.start, crate::s3::storage::range_end(rg, size), size)))
        }),
{
    let range_header = header_value(headers, "range");
    let meta = match storage.head_object(bucket, key) {
        Ok(m) => m,
        Err(e) => {
            return Err(S3RequestError::Storage(e));
        },
    };
    let range_opt = match &range_header {
        Some(rh) => ByteRange::parse(rh.as_str(), meta.size),
        None => None,
    };
    match storage.get_object(bucket, key, range_opt) {
        Err(e) => Err(S3RequestError::Storage(e)),
        Ok((m, data, content_range)) => {
            let mut hs: Vec<(String, String)> = Vec::new();
            let status: u16 = match content_range {
                Some(cr) => {
                    hs.push(("content-range".to_owned(), cr));
                    assert(pairs_view(hs@)[0] == ("content-range"@, cr@));
                    206
                },
                None => 200,
            };
            let oh = object_headers(&m, request_id);
            let ghost pre = hs@;
            let mut j: usize = 0;
            while j < oh.len()
                invariant
                    j <= oh@.len(),
                    hs@ == pre + oh@.subrange(0, j as int),
                decreases oh@.len() - j,
            {
                hs.push((oh[j].0.clone(), oh[j].1.clone()));
                assert(hs@ =~= pre + oh@.subrange(0, j + 1));
                j = j + 1;
            }
            assert(oh@.subrange(0, oh@.len() as int) =~= oh@);
            proof {
                let i = choose|i: int| 0 <= i < pairs_view(oh@).len() && pairs_view(oh@)[i] == ("x-amz-request-id"@, request_id@);
                assert(pairs_view(hs@)[pre.len() + i] == ("x-amz-request-id"@, request_id@));
                if status == 206 {
                    assert(pairs_view(hs@)[0] == pairs_view(pre)[0]);
                }
            }
            Ok(S3Response { status, headers: hs, body: data })
        },
    }
}

/// An optional query parameter.
fn query_param(q: &Table<String>, k: &str) -> (r: Option<String>)
    requires
        q.wf(),
    ensures
        crate::ses::state::opt_text(r) == crate::rds::handlers::param_text(texts(*q), k@),
{
    match q.get(k) {
        Some(v) => Some(v.clone()),
        None => None,
    }
}

/// The listing size a request asks for (`max-keys`), 1000 when absent, not a
/// number or too large.
pub open spec fn max_keys_spec(q: Map<Seq<char>, Seq<char>>) -> usize {
    match crate::rds::handlers::param_text(q, "max-keys"@) {
        Some(v) => match crate::text::parse_u64_spec(v) {
            Some(n) => if n <= usize::MAX { n as usize } else { 1000 },
            None => 1000,
        },
        None => 1000,
    }
}

/// The listing size a request asks for (`max-keys`), 1000 when absent or not a number.
fn max_keys_of(q: &Table<String>) -> (r: usize)
    requires
        q.wf(),
    ensures
        r == max_keys_spec(texts(*q)),
{
    match q.get("max-keys") {
        Some(v) => match crate::text::parse_u64(v.as_str()) {
            Some(n) => if n <= usize::MAX as u64 { n as usize } else { 1000 },
            None => 1000,
        },
        None => 1000,
    }
}

/// Routes a request to its storage operation and writes the outcome.
#[verifier::rlimit(60)]
#[verifier::spinoff_prover]
pub fn dispatch_s3_op(
    storage: &mut InMemoryStorage,
    method: S3Method,
    bucket_opt: Option<&str>,
    key_opt: Option<&str>,
    query: &Table<String>,
    headers: &Vec<(String, Option<String>)>,
    body: Vec<u8>,
    request_id: &str,
) -> (r: Result<S3Response, S3RequestError>)
    requires
        old(storage).wf(),
        query.wf(),
        range_request_sane(
            *old(storage),
            method,
            crate::rds::state::str_opt(bucket_opt),
            crate::rds::state::str_opt(key_opt),
            texts(*query),
            headers@,
        ),
    ensures
        final(storage).wf(),
        dispatched(
            *old(storage),
            *final(storage),
            method,
            crate::rds::state::str_opt(bucket_opt),
            crate::rds::state::str_opt(key_opt),
            texts(*query),
            headers@,
            body@,
            request_id@,
            r,
        ),
{
    let ghost data = body@;
    let ghost qm = texts(*query);
    let body_len = body.len();
    assert(data.len() == body_len);
    let copy_src = header_value(headers, "x-amz-copy-source");
    match (bucket_opt, key_opt) {
        (None, None) => {
            if method == S3Method::Get {
                let buckets = storage.list_buckets();
                let xml = serialize_list_buckets(buckets.as_slice(), "000000000000");
                Ok(xml_response(xml, request_id))
            } else {
                Err(S3RequestError::NotFound("Endpoint not found".to_owned()))
            }
        },
        (None, Some(_)) => Err(S3RequestError::NotFound("Endpoint not found".to_owned())),
        (Some(bucket), None) => match method {
            S3Method::Put => {
                match storage.create_bucket(bucket, "us-east-1") {
                    Err(e) => Err(S3RequestError::Storage(e)),
                    Ok(()) => {
                        let mut loc = String::new();
                        append(&mut loc, "/");
                        append(&mut loc, bucket);
                        Ok(plain_response(200, vec![("location".to_owned(), loc)], request_id))
                    },
                }
            },
            S3Method::Delete => match storage.delete_bucket(bucket) {
                Err(e) => Err(S3RequestError::Storage(e)),
                Ok(()) => Ok(plain_response(204, Vec::new(), request_id)),
            },
            S3Method::Head => match storage.head_bucket(bucket) {
                Err(e) => Err(S3RequestError::Storage(e)),
                Ok(_) => Ok(plain_response(200, Vec::new(), request_id)),
            },
            S3Method::Get => {
                if query.contains("location") {
                    match storage.head_bucket(bucket) {
                        Err(e) => Err(S3RequestError::Storage(e)),
                        Ok(info) => Ok(xml_response(serialize_bucket_location(info.region.as_str()), request_id)),
                    }
                } else {
                    let prefix = query_param(query, "prefix");
                    let delimiter = query_param(query, "delimiter");
                    let max_keys = max_keys_of(query);
                    let token = query_param(query, "continuation-token");
                    let start_after = query_param(query, "start-after");
                    let p_opt = match &prefix { Some(p) => Some(p.as_str()), None => None };
                    let d_opt = match &delimiter { Some(d) => Some(d.as_str()), None => None };
                    let t_opt = match &token { Some(c) => Some(c.as_str()), None => None };
                    let s_opt = match &start_after { Some(s) => Some(s.as_str()), None => None };
                    assert(crate::s3::storage::opt_view_str(p_opt) == crate::ses::state::opt_text(prefix));
                    assert(crate::s3::storage::opt_view_str(d_opt) == crate::ses::state::opt_text(delimiter));
                    assert(crate::s3::storage::opt_view_str(t_opt) == crate::ses::state::opt_text(token));
                    assert(crate::s3::storage::opt_view_str(s_opt) == crate::ses::state::opt_text(start_after));
                    let res = storage.list_objects_v2(bucket, p_opt, d_opt, max_keys, t_opt, s_opt);
                    match res {
                        Err(e) => Err(S3RequestError::Storage(e)),
                        Ok(list) => {
                            assert(listed_v2(
                                *storage,
                                bucket@,
                                crate::rds::handlers::param_text(qm, "prefix"@),
                                crate::rds::handlers::param_text(qm, "delimiter"@),
                                max_keys_spec(qm),
                                crate::rds::handlers::param_text(qm, "continuation-token"@),
                                crate::rds::handlers::param_text(qm, "start-after"@),
                                Ok(list),
                            ));
                            Ok(xml_response(serialize_list_objects_v2(&list), request_id))
                        },
                    }
                }
            },
            S3Method::Post => {
                if query.contains("delete") {
                    let (keys, quiet) = match parse_delete_objects_request(body.as_slice()) {
                        Ok(x) => x,
                        Err(e) => {
                            return Err(e);
                        },
                    };
                    let ghost kv = crate::text::views(keys@);
                    match storage.delete_objects(bucket, keys, quiet) {
                        Err(e) => Err(S3RequestError::Storage(e)),
                        Ok(res) => {
                            assert(pairs_view(res.errors@) =~= Seq::<(Seq<char>, Seq<char>)>::empty());
                            assert(crate::text::views(res.deleted@) == kv);
                            assert(delete_result_xml(kv, Seq::empty()) == delete_result_xml(kv, Seq::empty()));
                            Ok(xml_response(serialize_delete_result(&res), request_id))
                        },
                    }
                } else {
                    Err(S3RequestError::NotFound("Endpoint not found".to_owned()))
                }
            },
            S3Method::Other => Err(S3RequestError::NotFound("Endpoint not found".to_owned())),
        },
        (Some(bucket), Some(key)) => match method {
            S3Method::Put => {
                let upload_id = query_param(query, "uploadId");
                let part_num = query_param(query, "partNumber");
                if upload_id.is_some() && part_num.is_some() {
                    let uid = match upload_id { Some(u) => u, None => String::new() };
                    let pn = match part_num { Some(p) => p, None => String::new() };
                    let n = match parse_i32(pn.as_str()) {
                        Some(n) => n,
                        None => {
                            return Err(S3RequestError::InvalidArgument("Invalid partNumber".to_owned()));
                        },
                    };
                    return match storage.upload_part(bucket, key, uid.as_str(), n, body) {
                        Err(e) => Err(S3RequestError::Storage(e)),
                        Ok(etag) => {
                            let ghost lm = storage@[bucket@].uploads[uid@].parts[n].last_modified;
                            let ghost et = etag@;
                            let hs: Vec<(String, String)> = vec![("etag".to_owned(), etag)];
                            assert(pairs_view(hs@)[0] == ("etag"@, et));
                            let r = plain_response(200, hs, request_id);
                            assert(pairs_view(r.headers@)[0] == ("etag"@, etag_of(data)));
                            assert(uploaded_part(data, lm) == uploaded_part(data, lm));
                            assert(uid@ == crate::rds::handlers::param_text(qm, "uploadId"@)->0);
                            assert(Some(n) == parse_i32_spec(crate::rds::handlers::param_text(qm, "partNumber"@)->0));
                            let ghost u = old(storage)@[bucket@].uploads[uid@];
                            assert(storage@ == old(storage)@.insert(
                                bucket@,
                                with_upload(
                                    old(storage)@[bucket@],
                                    uid@,
                                    UploadView { parts: u.parts.insert(n, uploaded_part(data, lm)), ..u },
                                ),
                            ));
                            Ok(r)
                        },
                    };
                }
                match copy_src {
                    Some(src) => {
                        let clean = trim_start_matches_char(src.as_str(), '/');
                        let cv = to_chars(clean.as_str());
                        let p = char_position(&cv, '/');
                        proof { lemma_char_pos(clean@, '/'); }
                        let src_bucket = chars_to_string(cv.as_slice(), 0, p);
                        let src_key = if p < cv.len() {
                            chars_to_string(cv.as_slice(), p + 1, cv.len())
                        } else {
                            String::new()
                        };
                        assert(src@ == header_text(headers@, "x-amz-copy-source"@)->0);
                        assert(src_bucket@ == copy_source(src@).0);
                        assert(src_key@ == copy_source(src@).1);
                        match storage.copy_object(src_bucket.as_str(), src_key.as_str(), bucket, key) {
                            Err(e) => Err(S3RequestError::Storage(e)),
                            Ok(meta) => Ok(xml_response(
                                serialize_copy_object_result(meta.etag.as_str(), meta.last_modified.as_str()),
                                request_id,
                            )),
                        }
                    },
                    None => {
                        let content_type = header_value(headers, "content-type");
                        let metadata = user_metadata(headers);
                        match storage.put_object(bucket, key, body, content_type, metadata) {
                            Err(e) => Err(S3RequestError::Storage(e)),
                            Ok(meta) => {
                                let ghost md = meta@;
                                assert(object_view(md, data) == object_view(md, data));
                                let hs: Vec<(String, String)> = vec![("etag".to_owned(), meta.etag)];
                                assert(pairs_view(hs@)[0] == ("etag"@, md.etag));
                                let r = plain_response(200, hs, request_id);
                                assert(pairs_view(r.headers@)[0] == ("etag"@, etag_of(data)));
                                assert(md.key == key@ && md.size == data.len() && md.etag == etag_of(data));
                                assert(storage@ == old(storage)@.insert(
                                    bucket@,
                                    with_object(old(storage)@[bucket@], key@, object_view(md, data)),
                                ));
                                Ok(r)
                            },
                        }
                    },
                }
            },
            S3Method::Get => {
                match query_param(query, "uploadId") {
                    Some(upload_id) => match storage.list_parts(bucket, key, upload_id.as_str()) {
                        Err(e) => Err(S3RequestError::Storage(e)),
                        Ok(parts) => Ok(xml_response(
                            serialize_list_parts(bucket, key, upload_id.as_str(), parts.as_slice()),
                            request_id,
                        )),
                    },
                    None => get_object_op(storage, bucket, key, headers, request_id),
                }
            },
            S3Method::Head => match storage.head_object(bucket, key) {
                Err(e) => Err(S3RequestError::Storage(e)),
                Ok(meta) => {
                    let hs = object_headers(&meta, request_id);
                    Ok(S3Response { status: 200, headers: hs, body: Vec::new() })
                },
            },
            S3Method::Delete => {
                match query_param(query, "uploadId") {
                    Some(upload_id) => match storage.abort_multipart_upload(bucket, key, upload_id.as_str()) {
                        Err(e) => Err(S3RequestError::Storage(e)),
                        Ok(()) => Ok(plain_response(204, Vec::new(), request_id)),
                    },
                    None => match storage.delete_object(bucket, key) {
                        Err(e) => Err(S3RequestError::Storage(e)),
                        Ok(()) => Ok(plain_response(204, Vec::new(), request_id)),
                    },
                }
            },
            S3Method::Post => {
                if query.contains("uploads") {
                    let content_type = header_value(headers, "content-type");
                    let metadata = user_metadata(headers);
                    match storage.create_multipart_upload(bucket, key, content_type, metadata) {
                        Err(e) => Err(S3RequestError::Storage(e)),
                        Ok(upload_id) => Ok(xml_response(
                            serialize_initiate_multipart(bucket, key, upload_id.as_str()),
                            request_id,
                        )),
                    }
                } else {
                    match query_param(query, "uploadId") {
                        Some(upload_id) => {
                            let parts = match parse_complete_multipart_request(body.as_slice()) {
                                Ok(p) => p,
                                Err(e) => {
                                    return Err(e);
                                },
                            };
                            let ghost ps = parts@;
                            match storage.complete_multipart_upload(bucket, key, upload_id.as_str(), parts) {
                                Err(e) => Err(S3RequestError::Storage(e)),
                                Ok(meta) => {
                                    let ghost md = meta@;
                                    let ghost u = old(storage)@[bucket@].uploads[upload_id@];
                                    assert(concat_parts(u.parts, ps) is Some);
                                    assert(object_view(md, concat_parts(u.parts, ps)->0) == object_view(md, concat_parts(u.parts, ps)->0));
                                    assert(upload_id@ == crate::rds::handlers::param_text(qm, "uploadId"@)->0);
                                    assert(md.key == key@ && md.size == concat_parts(u.parts, ps)->0.len() as u64
                                        && md.etag == etag_of(concat_parts(u.parts, ps)->0));
                                    assert(storage@ == old(storage)@.insert(
                                        bucket@,
                                        with_object(without_upload(old(storage)@[bucket@], upload_id@), key@, object_view(md, concat_parts(u.parts, ps)->0)),
                                    ));
                                    let mut location = String::new();
                                    append(&mut location, "http://localhost:4566/");
                                    append(&mut location, bucket);
                                    append(&mut location, "/");
                                    append(&mut location, key);
                                    Ok(xml_response(
                                        serialize_complete_multipart(bucket, key, location.as_str(), meta.etag.as_str()),
                                        request_id,
                                    ))
                                },
                            }
                        },
                        None => Err(S3RequestError::BadRequest("Unsupported POST operation on key".to_owned())),
                    }
                }
            },
            S3Method::Other => Err(S3RequestError::NotFound("Endpoint not found".to_owned())),
        },
    }
}

/// How the outcome of dispatching is answered: a success as it is, a failure
/// as its error response.
pub open spec fn answered(res: Result<S3Response, S3RequestError>, r: S3Response, rid: Seq<char>) -> bool {
    match res {
        Ok(x) => r == x,
        Err(e) => {
            &&& r.status == error_parts(e).0
            &&& r.body@ == text_bytes(s3_error_xml(error_parts(e).1, error_parts(e).2, error_parts(e).3, rid))
            &&& pairs_view(r.headers@) == seq![("content-type"@, "application/xml"@), ("x-amz-request-id"@, rid)]
        },
    }
}

/// Whether `handle_s3_request` may be given a request: a byte range that a
/// read of an existing object names must not end before it starts.
pub fn range_request_sane_exec(
    storage: &InMemoryStorage,
    method: S3Method,
    path: &str,
    host: Option<&str>,
    query: Option<&str>,
    headers: &Vec<(String, Option<String>)>,
) -> (r: bool)
    requires
        storage.wf(),
    ensures
        r == range_request_sane(
            *storage,
            method,
            bucket_and_key(path@, crate::rds::state::str_opt(host)).0,
            bucket_and_key(path@, crate::rds::state::str_opt(host)).1,
            request_param_map(crate::rds::state::str_opt(query), Seq::empty()),
            headers@,
        ),
{
    let is_get = match method {
        S3Method::Get => true,
        _ => false,
    };
    if !is_get {
        return true;
    }
    let (bucket, key) = extract_bucket_and_key(path, host);
    let (b, k) = match (bucket, key) {
        (Some(b), Some(k)) => (b, k),
        _ => {
            return true;
        },
    };
    let empty: Vec<u8> = Vec::new();
    let q = request_params(query, empty.as_slice());
    assert(empty@ =~= Seq::<u8>::empty());
    if q.get("uploadId").is_some() {
        assert(q@.map_values(|v: String| v@).contains_key("uploadId"@));
        return true;
    }
    assert(!q@.map_values(|v: String| v@).contains_key("uploadId"@));
    let h = match header_value(headers, "range") {
        Some(h) => h,
        None => {
            return true;
        },
    };
    match storage.head_object(b.as_str(), k.as_str()) {
        Err(_) => true,
        Ok(meta) => match ByteRange::parse(h.as_str(), meta.size) {
            None => true,
            Some(range) => match range.end {
                None => true,
                Some(e) => range.start == 0 || range.start - 1 <= e,
            },
        },
    }
}

/// Handles a request: the bucket and key come from the path and `Host`
/// header, the parameters from the query string; the operation they name is
/// done and its outcome, or its error, answered.
pub fn handle_s3_request(
    storage: &mut InMemoryStorage,
    method: S3Method,
    path: &str,
    host: Option<&str>,
    query: Option<&str>,
    headers: &Vec<(String, Option<String>)>,
    body: Vec<u8>,
    request_id: &str,
) -> (r: S3Response)
    requires
        old(storage).wf(),
        range_request_sane(
            *old(storage),
            method,
            bucket_and_key(path@, crate::rds::state::str_opt(host)).0,
            bucket_and_key(path@, crate::rds::state::str_opt(host)).1,
            request_param_map(crate::rds::state::str_opt(query), Seq::empty()),
            headers@,
        ),
    ensures
        final(storage).wf(),
        exists|res: Result<S3Response, S3RequestError>|
            dispatched(
                *old(storage),
                *final(storage),
                method,
                bucket_and_key(path@, crate::rds::state::str_opt(host)).0,
                bucket_and_key(path@, crate::rds::state::str_opt(host)).1,
                request_param_map(crate::rds::state::str_opt(query), Seq::empty()),
                headers@,
                body@,
                request_id@,
                res,
            ) && #[trigger] answered(res, r, request_id@),
{
    let (bucket, key) = extract_bucket_and_key(path, host);
    let empty: Vec<u8> = Vec::new();
    let q = request_params(query, empty.as_slice());
    assert(empty@ =~= Seq::<u8>::empty());
    let res = dispatch_s3_op(
        storage,
        method,
        match &bucket { Some(b) => Some(b.as_str()), None => None },
        match &key { Some(k) => Some(k.as_str()), None => None },
        &q,
        headers,
        body,
        request_id,
    );
    let ghost gres = res;
    let r = match res {
        Ok(x) => x,
        Err(e) => make_s3_error_response(&e, request_id),
    };
    assert(answered(gres, r, request_id@));
    r
}

} // verus!
