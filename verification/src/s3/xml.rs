//! The XML bodies of the S3 responses.
use vstd::prelude::*;
use crate::s3::storage::{BucketInfo, DeleteObjectsResult, ListObjectsV2Result, ObjectMetadata, PartInfo, pairs_view};
use crate::s3::types::{BucketNotificationConfig, NotificationFilter, NotificationFilterRule, QueueNotificationConfig, TopicNotificationConfig};
use crate::s3::handlers::{read_tokens, token_events, xml_read, S3RequestError, XmlToken};
use crate::text::{str_eq, append, append_escaped, append_u64, append_i64, decimal, signed_decimal, views, xml_escaped};

verus! {

/// The XML declaration that opens every body.
pub const XML_DECL: &'static str = "<?xml version=\"1.0\" encoding=\"UTF-8\"?>\n";

/// The body of a batch delete: one `Deleted` element per removed key, then one
/// `Error` element per failure.
pub open spec fn delete_result_xml(deleted: Seq<Seq<char>>, errors: Seq<(Seq<char>, Seq<char>)>) -> Seq<char> {
    XML_DECL@ + "<DeleteResult xmlns=\"http://s3.amazonaws.com/doc/2006-03-01/\">"@ + deleted_xml(deleted)
        + errors_xml(errors) + "\n</DeleteResult>"@
}

/// The `Deleted` elements of a batch delete.
pub open spec fn deleted_xml(keys: Seq<Seq<char>>) -> Seq<char>
    decreases keys.len(),
{
    if keys.len() == 0 {
        Seq::empty()
    } else {
        deleted_xml(keys.drop_last()) + "\n    <Deleted>\n        <Key>"@ + xml_escaped(keys.last())
            + "</Key>\n    </Deleted>"@
    }
}

/// The `Error` elements of a batch delete.
pub open spec fn errors_xml(errors: Seq<(Seq<char>, Seq<char>)>) -> Seq<char>
    decreases errors.len(),
{
    if errors.len() == 0 {
        Seq::empty()
    } else {
        errors_xml(errors.drop_last()) + "\n    <Error>\n        <Key>"@ + xml_escaped(errors.last().0)
            + "</Key>\n        <Code>InternalError</Code>\n        <Message>"@ + xml_escaped(errors.last().1)
            + "</Message>\n    </Error>"@
    }
}

/// Serializes the outcome of a batch delete.
pub fn serialize_delete_objects_result(res: &DeleteObjectsResult) -> (xml: String)
    ensures
        xml@ == delete_result_xml(views(res.deleted@), pairs_view(res.errors@)),
{
    let mut xml = String::new();
    append(&mut xml, XML_DECL);
    append(&mut xml, "<DeleteResult xmlns=\"http://s3.amazonaws.com/doc/2006-03-01/\">");
    let ghost head = xml@;
    let ghost keys = views(res.deleted@);
    let mut i: usize = 0;
    while i < res.deleted.len()
        invariant
            keys == views(res.deleted@),
            i <= keys.len(),
            xml@ == head + deleted_xml(keys.subrange(0, i as int)),
        decreases keys.len() - i,
    {
        assert(keys.subrange(0, i + 1).drop_last() =~= keys.subrange(0, i as int));
        append(&mut xml, "\n    <Deleted>\n        <Key>");
        append_escaped(&mut xml, res.deleted[i].as_str());
        append(&mut xml, "</Key>\n    </Deleted>");
        i = i + 1;
        assert(xml@ =~= head + deleted_xml(keys.subrange(0, i as int)));
    }
    assert(keys.subrange(0, keys.len() as int) =~= keys);
    let ghost mid = xml@;
    let ghost errs = pairs_view(res.errors@);
    let mut j: usize = 0;
    while j < res.errors.len()
        invariant
            errs == pairs_view(res.errors@),
            j <= errs.len(),
            xml@ == mid + errors_xml(errs.subrange(0, j as int)),
        decreases errs.len() - j,
    {
        assert(errs.subrange(0, j + 1).drop_last() =~= errs.subrange(0, j as int));
        let e = &res.errors[j];
        append(&mut xml, "\n    <Error>\n        <Key>");
        append_escaped(&mut xml, e.0.as_str());
        append(&mut xml, "</Key>\n        <Code>InternalError</Code>\n        <Message>");
        append_escaped(&mut xml, e.1.as_str());
        append(&mut xml, "</Message>\n    </Error>");
        j = j + 1;
        assert(xml@ =~= mid + errors_xml(errs.subrange(0, j as int)));
    }
    assert(errs.subrange(0, errs.len() as int) =~= errs);
    append(&mut xml, "\n</DeleteResult>");
    assert(xml@ =~= delete_result_xml(keys, errs));
    xml
}

/// Serializes the outcome of a batch delete (the same body as
/// [`serialize_delete_objects_result`]).
pub fn serialize_delete_result(res: &DeleteObjectsResult) -> (xml: String)
    ensures
        xml@ == delete_result_xml(views(res.deleted@), pairs_view(res.errors@)),
{
    serialize_delete_objects_result(res)
}

/// The body that answers the start of a multipart upload.
pub open spec fn initiate_multipart_xml(bucket: Seq<char>, key: Seq<char>, upload_id: Seq<char>) -> Seq<char> {
    XML_DECL@ + "<InitiateMultipartUploadResult xmlns=\"http://s3.amazonaws.com/doc/2006-03-01/\">\n    <Bucket>"@
        + xml_escaped(bucket) + "</Bucket>\n    <Key>"@ + xml_escaped(key) + "</Key>\n    <UploadId>"@
        + xml_escaped(upload_id) + "</UploadId>\n</InitiateMultipartUploadResult>"@
}

/// Serializes the answer to the start of a multipart upload.
pub fn serialize_initiate_multipart_upload(bucket: &str, key: &str, upload_id: &str) -> (xml: String)
    ensures
        xml@ == initiate_multipart_xml(bucket@, key@, upload_id@),
{
    let mut xml = String::new();
    append(&mut xml, XML_DECL);
    append(&mut xml, "<InitiateMultipartUploadResult xmlns=\"http://s3.amazonaws.com/doc/2006-03-01/\">\n    <Bucket>");
    append_escaped(&mut xml, bucket);
    append(&mut xml, "</Bucket>\n    <Key>");
    append_escaped(&mut xml, key);
    append(&mut xml, "</Key>\n    <UploadId>");
    append_escaped(&mut xml, upload_id);
    append(&mut xml, "</UploadId>\n</InitiateMultipartUploadResult>");
    assert(xml@ =~= initiate_multipart_xml(bucket@, key@, upload_id@));
    xml
}

/// Serializes the answer to the start of a multipart upload (the same body as
/// [`serialize_initiate_multipart_upload`]).
pub fn serialize_initiate_multipart(bucket: &str, key: &str, upload_id: &str) -> (xml: String)
    ensures
        xml@ == initiate_multipart_xml(bucket@, key@, upload_id@),
{
    serialize_initiate_multipart_upload(bucket, key, upload_id)
}

/// The body that answers the completion of a multipart upload.
pub open spec fn complete_multipart_xml(bucket: Seq<char>, key: Seq<char>, etag: Seq<char>, location: Seq<char>) -> Seq<char> {
    XML_DECL@ + "<CompleteMultipartUploadResult xmlns=\"http://s3.amazonaws.com/doc/2006-03-01/\">\n    <Location>"@
        + xml_escaped(location) + "</Location>\n    <Bucket>"@ + xml_escaped(bucket) + "</Bucket>\n    <Key>"@
        + xml_escaped(key) + "</Key>\n    <ETag>"@ + xml_escaped(etag) + "</ETag>\n</CompleteMultipartUploadResult>"@
}

/// Serializes the answer to the completion of a multipart upload.
pub fn serialize_complete_multipart_upload(bucket: &str, key: &str, etag: &str, location: &str) -> (xml: String)
    ensures
        xml@ == complete_multipart_xml(bucket@, key@, etag@, location@),
{
    let mut xml = String::new();
    append(&mut xml, XML_DECL);
    append(&mut xml, "<CompleteMultipartUploadResult xmlns=\"http://s3.amazonaws.com/doc/2006-03-01/\">\n    <Location>");
    append_escaped(&mut xml, location);
    append(&mut xml, "</Location>\n    <Bucket>");
    append_escaped(&mut xml, bucket);
    append(&mut xml, "</Bucket>\n    <Key>");
    append_escaped(&mut xml, key);
    append(&mut xml, "</Key>\n    <ETag>");
    append_escaped(&mut xml, etag);
    append(&mut xml, "</ETag>\n</CompleteMultipartUploadResult>");
    assert(xml@ =~= complete_multipart_xml(bucket@, key@, etag@, location@));
    xml
}

/// Serializes the answer to the completion of a multipart upload (the same body
/// as [`serialize_complete_multipart_upload`]).
pub fn serialize_complete_multipart(bucket: &str, key: &str, etag: &str, location: &str) -> (xml: String)
    ensures
        xml@ == complete_multipart_xml(bucket@, key@, etag@, location@),
{
    serialize_complete_multipart_upload(bucket, key, etag, location)
}

/// The body that answers a copy: the copy's time and entity tag.
pub open spec fn copy_object_xml(etag: Seq<char>, last_modified: Seq<char>) -> Seq<char> {
    XML_DECL@ + "<CopyObjectResult xmlns=\"http://s3.amazonaws.com/doc/2006-03-01/\">\n    <LastModified>"@
        + last_modified + "</LastModified>\n    <ETag>"@ + xml_escaped(etag) + "</ETag>\n</CopyObjectResult>"@
}

/// Serializes the answer to a copy; `last_modified` is already an RFC 3339 time.
pub fn serialize_copy_object_result(etag: &str, last_modified: &str) -> (xml: String)
    ensures
        xml@ == copy_object_xml(etag@, last_modified@),
{
    let mut xml = String::new();
    append(&mut xml, XML_DECL);
    append(&mut xml, "<CopyObjectResult xmlns=\"http://s3.amazonaws.com/doc/2006-03-01/\">\n    <LastModified>");
    append(&mut xml, last_modified);
    append(&mut xml, "</LastModified>\n    <ETag>");
    append_escaped(&mut xml, etag);
    append(&mut xml, "</ETag>\n</CopyObjectResult>");
    assert(xml@ =~= copy_object_xml(etag@, last_modified@));
    xml
}

/// The body that names a bucket's region; `us-east-1` and the empty region give
/// an empty element.
pub open spec fn bucket_location_xml(region: Seq<char>) -> Seq<char> {
    if region.len() == 0 || region == "us-east-1"@ {
        XML_DECL@ + "<LocationConstraint xmlns=\"http://s3.amazonaws.com/doc/2006-03-01/\"/>"@
    } else {
        XML_DECL@ + "<LocationConstraint xmlns=\"http://s3.amazonaws.com/doc/2006-03-01/\">"@ + xml_escaped(region)
            + "</LocationConstraint>"@
    }
}

/// Serializes a bucket's location.
pub fn serialize_bucket_location(region: &str) -> (xml: String)
    ensures
        xml@ == bucket_location_xml(region@),
{
    let mut xml = String::new();
    append(&mut xml, XML_DECL);
    if region.is_empty() || str_eq(region, "us-east-1") {
        append(&mut xml, "<LocationConstraint xmlns=\"http://s3.amazonaws.com/doc/2006-03-01/\"/>");
    } else {
        append(&mut xml, "<LocationConstraint xmlns=\"http://s3.amazonaws.com/doc/2006-03-01/\">");
        append_escaped(&mut xml, region);
        append(&mut xml, "</LocationConstraint>");
    }
    assert(xml@ =~= bucket_location_xml(region@));
    xml
}

/// The `Bucket` elements of a bucket listing.
pub open spec fn buckets_xml(bs: Seq<BucketInfo>) -> Seq<char>
    decreases bs.len(),
{
    if bs.len() == 0 {
        Seq::empty()
    } else {
        buckets_xml(bs.drop_last()) + "\n        <Bucket>\n            <Name>"@ + xml_escaped(bs.last().name@)
            + "</Name>\n            <CreationDate>"@ + bs.last().creation_date@
            + "</CreationDate>\n        </Bucket>"@
    }
}

/// The body of a bucket listing.
pub open spec fn list_buckets_xml(bs: Seq<BucketInfo>) -> Seq<char> {
    XML_DECL@ + "<ListAllMyBucketsResult xmlns=\"http://s3.amazonaws.com/doc/2006-03-01/\">\n    <Owner>\n        <ID>000000000000</ID>\n        <DisplayName>ruststack</DisplayName>\n    </Owner>\n    <Buckets>"@
        + buckets_xml(bs) + "\n    </Buckets>\n</ListAllMyBucketsResult>"@
}

/// Serializes a bucket listing; the owner is always the fixed account.
pub fn serialize_list_buckets(buckets: &[BucketInfo], owner_id: &str) -> (xml: String)
    ensures
        xml@ == list_buckets_xml(buckets@),
{
    let mut xml = String::new();
    append(&mut xml, XML_DECL);
    append(&mut xml, "<ListAllMyBucketsResult xmlns=\"http://s3.amazonaws.com/doc/2006-03-01/\">\n    <Owner>\n        <ID>000000000000</ID>\n        <DisplayName>ruststack</DisplayName>\n    </Owner>\n    <Buckets>");
    let ghost head = xml@;
    let mut i: usize = 0;
    while i < buckets.len()
        invariant
            i <= buckets@.len(),
            xml@ == head + buckets_xml(buckets@.subrange(0, i as int)),
        decreases buckets@.len() - i,
    {
        assert(buckets@.subrange(0, i + 1).drop_last() =~= buckets@.subrange(0, i as int));
        let b = &buckets[i];
        append(&mut xml, "\n        <Bucket>\n            <Name>");
        append_escaped(&mut xml, b.name.as_str());
        append(&mut xml, "</Name>\n            <CreationDate>");
        append(&mut xml, b.creation_date.as_str());
        append(&mut xml, "</CreationDate>\n        </Bucket>");
        i = i + 1;
        assert(xml@ =~= head + buckets_xml(buckets@.subrange(0, i as int)));
    }
    assert(buckets@.subrange(0, buckets@.len() as int) =~= buckets@);
    append(&mut xml, "\n    </Buckets>\n</ListAllMyBucketsResult>");
    assert(xml@ =~= list_buckets_xml(buckets@));
    xml
}

/// The `Part` elements of a part listing.
pub open spec fn parts_xml(ps: Seq<PartInfo>) -> Seq<char>
    decreases ps.len(),
{
    if ps.len() == 0 {
        Seq::empty()
    } else {
        parts_xml(ps.drop_last()) + "\n    <Part>\n        <PartNumber>"@ + signed_decimal(ps.last().part_number as int)
            + "</PartNumber>\n        <LastModified>"@ + ps.last().last_modified@ + "</LastModified>\n        <ETag>"@
            + xml_escaped(ps.last().etag@) + "</ETag>\n        <Size>"@ + decimal(ps.last().size as nat)
            + "</Size>\n    </Part>"@
    }
}

/// The body of a part listing.
pub open spec fn list_parts_xml(bucket: Seq<char>, key: Seq<char>, upload_id: Seq<char>, ps: Seq<PartInfo>) -> Seq<char> {
    XML_DECL@ + "<ListPartsResult xmlns=\"http://s3.amazonaws.com/doc/2006-03-01/\">\n    <Bucket>"@ + xml_escaped(bucket)
        + "</Bucket>\n    <Key>"@ + xml_escaped(key) + "</Key>\n    <UploadId>"@ + xml_escaped(upload_id)
        + "</UploadId>\n    <StorageClass>STANDARD</StorageClass>\n    <PartNumberMarker>0</PartNumberMarker>\n    <NextPartNumberMarker>0</NextPartNumberMarker>\n    <MaxParts>1000</MaxParts>\n    <IsTruncated>false</IsTruncated>"@
        + parts_xml(ps) + "\n</ListPartsResult>"@
}

/// Serializes the parts of a multipart upload.
#[verifier::spinoff_prover]
#[verifier::rlimit(40)]
pub fn serialize_list_parts(bucket: &str, key: &str, upload_id: &str, parts: &[PartInfo]) -> (xml: String)
    ensures
        xml@ == list_parts_xml(bucket@, key@, upload_id@, parts@),
{
    let mut xml = String::new();
    append(&mut xml, XML_DECL);
    append(&mut xml, "<ListPartsResult xmlns=\"http://s3.amazonaws.com/doc/2006-03-01/\">\n    <Bucket>");
    append_escaped(&mut xml, bucket);
    append(&mut xml, "</Bucket>\n    <Key>");
    append_escaped(&mut xml, key);
    append(&mut xml, "</Key>\n    <UploadId>");
    append_escaped(&mut xml, upload_id);
    append(&mut xml, "</UploadId>\n    <StorageClass>STANDARD</StorageClass>\n    <PartNumberMarker>0</PartNumberMarker>\n    <NextPartNumberMarker>0</NextPartNumberMarker>\n    <MaxParts>1000</MaxParts>\n    <IsTruncated>false</IsTruncated>");
    let ghost head = xml@;
    let mut i: usize = 0;
    while i < parts.len()
        invariant
            i <= parts@.len(),
            xml@ == head + parts_xml(parts@.subrange(0, i as int)),
        decreases parts@.len() - i,
    {
        assert(parts@.subrange(0, i + 1).drop_last() =~= parts@.subrange(0, i as int));
        let p = &parts[i];
        append(&mut xml, "\n    <Part>\n        <PartNumber>");
        append_i64(&mut xml, p.part_number as i64);
        append(&mut xml, "</PartNumber>\n        <LastModified>");
        append(&mut xml, p.last_modified.as_str());
        append(&mut xml, "</LastModified>\n        <ETag>");
        append_escaped(&mut xml, p.etag.as_str());
        append(&mut xml, "</ETag>\n        <Size>");
        append_u64(&mut xml, p.size);
        append(&mut xml, "</Size>\n    </Part>");
        i = i + 1;
        assert(xml@ =~= head + parts_xml(parts@.subrange(0, i as int)));
    }
    assert(parts@.subrange(0, parts@.len() as int) =~= parts@);
    append(&mut xml, "\n</ListPartsResult>");
    assert(xml@ =~= list_parts_xml(bucket@, key@, upload_id@, parts@));
    xml
}

/// An optional element: `<open>escaped value<close>`, or nothing.
pub open spec fn opt_elem_xml(open: Seq<char>, v: Option<String>, close: Seq<char>) -> Seq<char> {
    match v {
        Some(t) => open + xml_escaped(t@) + close,
        None => Seq::empty(),
    }
}

/// The `Contents` elements of an object listing.
pub open spec fn contents_xml(ms: Seq<ObjectMetadata>) -> Seq<char>
    decreases ms.len(),
{
    if ms.len() == 0 {
        Seq::empty()
    } else {
        contents_xml(ms.drop_last()) + "\n    <Contents>\n        <Key>"@ + xml_escaped(ms.last().key@)
            + "</Key>\n        <LastModified>"@ + ms.last().last_modified@ + "</LastModified>\n        <ETag>"@
            + xml_escaped(ms.last().etag@) + "</ETag>\n        <Size>"@ + decimal(ms.last().size as nat)
            + "</Size>\n        <StorageClass>STANDARD</StorageClass>\n    </Contents>"@
    }
}

/// The `CommonPrefixes` elements of an object listing.
pub open spec fn common_prefixes_xml(ps: Seq<Seq<char>>) -> Seq<char>
    decreases ps.len(),
{
    if ps.len() == 0 {
        Seq::empty()
    } else {
        common_prefixes_xml(ps.drop_last()) + "\n    <CommonPrefixes>\n        <Prefix>"@ + xml_escaped(ps.last())
            + "</Prefix>\n    </CommonPrefixes>"@
    }
}

/// `true` or `false`.
pub open spec fn bool_text(b: bool) -> Seq<char> {
    if b { "true"@ } else { "false"@ }
}

/// The body of an object listing.
pub open spec fn list_objects_v2_xml(res: ListObjectsV2Result) -> Seq<char> {
    XML_DECL@ + "<ListBucketResult xmlns=\"http://s3.amazonaws.com/doc/2006-03-01/\">\n    <Name>"@ + xml_escaped(res.name@)
        + "</Name>\n    <Prefix>"@ + xml_escaped(res.prefix@) + "</Prefix>\n    <KeyCount>"@
        + decimal(res.key_count as nat) + "</KeyCount>\n    <MaxKeys>"@ + decimal(res.max_keys as nat)
        + "</MaxKeys>\n    <IsTruncated>"@ + bool_text(res.is_truncated) + "</IsTruncated>"@
        + opt_elem_xml("\n    <Delimiter>"@, res.delimiter, "</Delimiter>"@)
        + opt_elem_xml("\n    <ContinuationToken>"@, res.continuation_token, "</ContinuationToken>"@)
        + opt_elem_xml("\n    <NextContinuationToken>"@, res.next_continuation_token, "</NextContinuationToken>"@)
        + opt_elem_xml("\n    <StartAfter>"@, res.start_after, "</StartAfter>"@)
        + contents_xml(res.contents@) + common_prefixes_xml(views(res.common_prefixes@)) + "\n</ListBucketResult>"@
}

/// Appends an optional element.
fn append_opt_elem(xml: &mut String, open: &str, v: &Option<String>, close: &str)
    ensures
        final(xml)@ == old(xml)@ + opt_elem_xml(open@, *v, close@),
{
    match v {
        Some(t) => {
            append(xml, open);
            append_escaped(xml, t.as_str());
            append(xml, close);
            assert(xml@ =~= old(xml)@ + opt_elem_xml(open@, *v, close@));
        },
        None => {
            assert(xml@ =~= old(xml)@ + opt_elem_xml(open@, *v, close@));
        },
    }
}

/// Serializes an object listing.
pub fn serialize_list_objects_v2(res: &ListObjectsV2Result) -> (xml: String)
    ensures
        xml@ == list_objects_v2_xml(*res),
{
    let mut xml = String::new();
    append(&mut xml, XML_DECL);
    append(&mut xml, "<ListBucketResult xmlns=\"http://s3.amazonaws.com/doc/2006-03-01/\">\n    <Name>");
    append_escaped(&mut xml, res.name.as_str());
    append(&mut xml, "</Name>\n    <Prefix>");
    append_escaped(&mut xml, res.prefix.as_str());
    append(&mut xml, "</Prefix>\n    <KeyCount>");
    append_u64(&mut xml, res.key_count as u64);
    append(&mut xml, "</KeyCount>\n    <MaxKeys>");
    append_u64(&mut xml, res.max_keys as u64);
    append(&mut xml, "</MaxKeys>\n    <IsTruncated>");
    if res.is_truncated {
        append(&mut xml, "true");
    } else {
        append(&mut xml, "false");
    }
    append(&mut xml, "</IsTruncated>");
    append_opt_elem(&mut xml, "\n    <Delimiter>", &res.delimiter, "</Delimiter>");
    append_opt_elem(&mut xml, "\n    <ContinuationToken>", &res.continuation_token, "</ContinuationToken>");
    append_opt_elem(&mut xml, "\n    <NextContinuationToken>", &res.next_continuation_token, "</NextContinuationToken>");
    append_opt_elem(&mut xml, "\n    <StartAfter>", &res.start_after, "</StartAfter>");
    let ghost head = xml@;
    let mut i: usize = 0;
    while i < res.contents.len()
        invariant
            i <= res.contents@.len(),
            xml@ == head + contents_xml(res.contents@.subrange(0, i as int)),
        decreases res.contents@.len() - i,
    {
        assert(res.contents@.subrange(0, i + 1).drop_last() =~= res.contents@.subrange(0, i as int));
        let m = &res.contents[i];
        append(&mut xml, "\n    <Contents>\n        <Key>");
        append_escaped(&mut xml, m.key.as_str());
        append(&mut xml, "</Key>\n        <LastModified>");
        append(&mut xml, m.last_modified.as_str());
        append(&mut xml, "</LastModified>\n        <ETag>");
        append_escaped(&mut xml, m.etag.as_str());
        append(&mut xml, "</ETag>\n        <Size>");
        append_u64(&mut xml, m.size);
        append(&mut xml, "</Size>\n        <StorageClass>STANDARD</StorageClass>\n    </Contents>");
        i = i + 1;
        assert(xml@ =~= head + contents_xml(res.contents@.subrange(0, i as int)));
    }
    assert(res.contents@.subrange(0, res.contents@.len() as int) =~= res.contents@);
    let ghost mid = xml@;
    let ghost ps = views(res.common_prefixes@);
    let mut j: usize = 0;
    while j < res.common_prefixes.len()
        invariant
            ps == views(res.common_prefixes@),
            j <= ps.len(),
            xml@ == mid + common_prefixes_xml(ps.subrange(0, j as int)),
        decreases ps.len() - j,
    {
        assert(ps.subrange(0, j + 1).drop_last() =~= ps.subrange(0, j as int));
        append(&mut xml, "\n    <CommonPrefixes>\n        <Prefix>");
        append_escaped(&mut xml, res.common_prefixes[j].as_str());
        append(&mut xml, "</Prefix>\n    </CommonPrefixes>");
        j = j + 1;
        assert(xml@ =~= mid + common_prefixes_xml(ps.subrange(0, j as int)));
    }
    assert(ps.subrange(0, ps.len() as int) =~= ps);
    append(&mut xml, "\n</ListBucketResult>");
    assert(xml@ =~= list_objects_v2_xml(*res));
    xml
}

/// The `Event` elements of a notification configuration.
pub open spec fn events_xml(evs: Seq<Seq<char>>) -> Seq<char>
    decreases evs.len(),
{
    if evs.len() == 0 {
        Seq::empty()
    } else {
        events_xml(evs.drop_last()) + "\n        <Event>"@ + xml_escaped(evs.last()) + "</Event>"@
    }
}

/// The `FilterRule` elements of a key filter.
pub open spec fn rules_xml(rules: Seq<NotificationFilterRule>) -> Seq<char>
    decreases rules.len(),
{
    if rules.len() == 0 {
        Seq::empty()
    } else {
        rules_xml(rules.drop_last()) + "\n                <FilterRule>\n                    <Name>"@
            + xml_escaped(rules.last().name@) + "</Name>\n                    <Value>"@ + xml_escaped(rules.last().value@)
            + "</Value>\n                </FilterRule>"@
    }
}

/// The `Filter` element of a configuration, if it has a filter.
pub open spec fn filter_xml(f: Option<NotificationFilter>) -> Seq<char> {
    match f {
        Some(f) => "\n        <Filter>\n            <S3Key>"@ + rules_xml(f.rules@) + "\n            </S3Key>\n        </Filter>"@,
        None => Seq::empty(),
    }
}

/// The `Id` element of a configuration, if its id is not empty.
pub open spec fn id_xml(id: Seq<char>) -> Seq<char> {
    if id.len() == 0 {
        Seq::empty()
    } else {
        "\n        <Id>"@ + xml_escaped(id) + "</Id>"@
    }
}

/// A `QueueConfiguration` element.
pub open spec fn queue_xml(q: QueueNotificationConfig) -> Seq<char> {
    "\n    <QueueConfiguration>"@ + id_xml(q.id@) + "\n        <Queue>"@ + xml_escaped(q.queue_arn@) + "</Queue>"@
        + events_xml(views(q.events@)) + filter_xml(q.filter) + "\n    </QueueConfiguration>"@
}

/// A `TopicConfiguration` element.
pub open spec fn topic_xml(t: TopicNotificationConfig) -> Seq<char> {
    "\n    <TopicConfiguration>"@ + id_xml(t.id@) + "\n        <Topic>"@ + xml_escaped(t.topic_arn@) + "</Topic>"@
        + events_xml(views(t.events@)) + filter_xml(t.filter) + "\n    </TopicConfiguration>"@
}

/// The queue configurations, one after the other.
pub open spec fn queues_xml(qs: Seq<QueueNotificationConfig>) -> Seq<char>
    decreases qs.len(),
{
    if qs.len() == 0 {
        Seq::empty()
    } else {
        queues_xml(qs.drop_last()) + queue_xml(qs.last())
    }
}

/// The topic configurations, one after the other.
pub open spec fn topics_xml(ts: Seq<TopicNotificationConfig>) -> Seq<char>
    decreases ts.len(),
{
    if ts.len() == 0 {
        Seq::empty()
    } else {
        topics_xml(ts.drop_last()) + topic_xml(ts.last())
    }
}

/// The body that describes a bucket's notification configuration.
pub open spec fn notification_configuration_xml(c: BucketNotificationConfig) -> Seq<char> {
    XML_DECL@ + "<NotificationConfiguration xmlns=\"http://s3.amazonaws.com/doc/2006-03-01/\">"@
        + queues_xml(c.queue_configurations@) + topics_xml(c.topic_configurations@)
        + (if c.eventbridge_enabled { "\n    <EventBridgeConfiguration/>"@ } else { Seq::empty() })
        + "\n</NotificationConfiguration>"@
}

/// Appends the `Event` elements.
fn append_events(xml: &mut String, events: &Vec<String>)
    ensures
        final(xml)@ == old(xml)@ + events_xml(views(events@)),
{
    let ghost head = xml@;
    let ghost evs = views(events@);
    let mut i: usize = 0;
    while i < events.len()
        invariant
            evs == views(events@),
            i <= evs.len(),
            xml@ == head + events_xml(evs.subrange(0, i as int)),
        decreases evs.len() - i,
    {
        assert(evs.subrange(0, i + 1).drop_last() =~= evs.subrange(0, i as int));
        append(xml, "\n        <Event>");
        append_escaped(xml, events[i].as_str());
        append(xml, "</Event>");
        i = i + 1;
        assert(xml@ =~= head + events_xml(evs.subrange(0, i as int)));
    }
    assert(evs.subrange(0, evs.len() as int) =~= evs);
}

/// Appends the `Filter` element, if any.
fn append_filter(xml: &mut String, filter: &Option<NotificationFilter>)
    ensures
        final(xml)@ == old(xml)@ + filter_xml(*filter),
{
    match filter {
        None => {
            assert(xml@ =~= old(xml)@ + filter_xml(*filter));
        },
        Some(f) => {
            append(xml, "\n        <Filter>\n            <S3Key>");
            let ghost head = xml@;
            let mut i: usize = 0;
            while i < f.rules.len()
                invariant
                    i <= f.rules@.len(),
                    xml@ == head + rules_xml(f.rules@.subrange(0, i as int)),
                decreases f.rules@.len() - i,
            {
                assert(f.rules@.subrange(0, i + 1).drop_last() =~= f.rules@.subrange(0, i as int));
                let r = &f.rules[i];
                append(xml, "\n                <FilterRule>\n                    <Name>");
                append_escaped(xml, r.name.as_str());
                append(xml, "</Name>\n                    <Value>");
                append_escaped(xml, r.value.as_str());
                append(xml, "</Value>\n                </FilterRule>");
                i = i + 1;
                assert(xml@ =~= head + rules_xml(f.rules@.subrange(0, i as int)));
            }
            assert(f.rules@.subrange(0, f.rules@.len() as int) =~= f.rules@);
            append(xml, "\n            </S3Key>\n        </Filter>");
            assert(xml@ =~= old(xml)@ + filter_xml(*filter));
        },
    }
}

/// Appends the `Id` element, if the id is not empty.
fn append_id(xml: &mut String, id: &str)
    ensures
        final(xml)@ == old(xml)@ + id_xml(id@),
{
    if !id.is_empty() {
        append(xml, "\n        <Id>");
        append_escaped(xml, id);
        append(xml, "</Id>");
    }
    assert(xml@ =~= old(xml)@ + id_xml(id@));
}

/// Serializes a bucket's notification configuration.
pub fn serialize_notification_configuration(config: &BucketNotificationConfig) -> (xml: String)
    ensures
        xml@ == notification_configuration_xml(*config),
{
    let mut xml = String::new();
    append(&mut xml, XML_DECL);
    append(&mut xml, "<NotificationConfiguration xmlns=\"http://s3.amazonaws.com/doc/2006-03-01/\">");
    let ghost head = xml@;
    let qs = &config.queue_configurations;
    let mut i: usize = 0;
    while i < qs.len()
        invariant
            i <= qs@.len(),
            xml@ == head + queues_xml(qs@.subrange(0, i as int)),
        decreases qs@.len() - i,
    {
        assert(qs@.subrange(0, i + 1).drop_last() =~= qs@.subrange(0, i as int));
        let q = &qs[i];
        let ghost before = xml@;
        append(&mut xml, "\n    <QueueConfiguration>");
        append_id(&mut xml, q.id.as_str());
        append(&mut xml, "\n        <Queue>");
        append_escaped(&mut xml, q.queue_arn.as_str());
        append(&mut xml, "</Queue>");
        append_events(&mut xml, &q.events);
        append_filter(&mut xml, &q.filter);
        append(&mut xml, "\n    </QueueConfiguration>");
        assert(xml@ =~= before + queue_xml(*q));
        i = i + 1;
        assert(xml@ =~= head + queues_xml(qs@.subrange(0, i as int)));
    }
    assert(qs@.subrange(0, qs@.len() as int) =~= qs@);
    let ghost mid = xml@;
    let ts = &config.topic_configurations;
    let mut j: usize = 0;
    while j < ts.len()
        invariant
            j <= ts@.len(),
            xml@ == mid + topics_xml(ts@.subrange(0, j as int)),
        decreases ts@.len() - j,
    {
        assert(ts@.subrange(0, j + 1).drop_last() =~= ts@.subrange(0, j as int));
        let t = &ts[j];
        let ghost before = xml@;
        append(&mut xml, "\n    <TopicConfiguration>");
        append_id(&mut xml, t.id.as_str());
        append(&mut xml, "\n        <Topic>");
        append_escaped(&mut xml, t.topic_arn.as_str());
        append(&mut xml, "</Topic>");
        append_events(&mut xml, &t.events);
        append_filter(&mut xml, &t.filter);
        append(&mut xml, "\n    </TopicConfiguration>");
        assert(xml@ =~= before + topic_xml(*t));
        j = j + 1;
        assert(xml@ =~= mid + topics_xml(ts@.subrange(0, j as int)));
    }
    assert(ts@.subrange(0, ts@.len() as int) =~= ts@);
    if config.eventbridge_enabled {
        append(&mut xml, "\n    <EventBridgeConfiguration/>");
    }
    append(&mut xml, "\n</NotificationConfiguration>");
    assert(xml@ =~= notification_configuration_xml(*config));
    xml
}


/// A notification target's configuration as values: its id, its ARN, its
/// events, and the name and value of each rule of its key filter, if any.
#[verifier::ext_equal]
pub struct ConfigView {
    pub id: Seq<char>,
    pub arn: Seq<char>,
    pub events: Seq<Seq<char>>,
    pub filter: Option<Seq<(Seq<char>, Seq<char>)>>,
}

/// The name and value of each filter rule.
pub open spec fn rules_view(rs: Seq<NotificationFilterRule>) -> Seq<(Seq<char>, Seq<char>)> {
    rs.map_values(|r: NotificationFilterRule| (r.name@, r.value@))
}

/// A key filter as its rules.
pub open spec fn filter_view(f: Option<NotificationFilter>) -> Option<Seq<(Seq<char>, Seq<char>)>> {
    match f {
        Some(f) => Some(rules_view(f.rules@)),
        None => None,
    }
}

/// A queue configuration as values.
pub open spec fn queue_config_view(q: QueueNotificationConfig) -> ConfigView {
    ConfigView { id: q.id@, arn: q.queue_arn@, events: views(q.events@), filter: filter_view(q.filter) }
}

/// A topic configuration as values.
pub open spec fn topic_config_view(t: TopicNotificationConfig) -> ConfigView {
    ConfigView { id: t.id@, arn: t.topic_arn@, events: views(t.events@), filter: filter_view(t.filter) }
}

/// A configuration with nothing set.
pub open spec fn empty_config() -> ConfigView {
    ConfigView { id: Seq::empty(), arn: Seq::empty(), events: Seq::empty(), filter: None }
}

/// What reading a notification configuration has gathered: the current
/// element; whether a queue configuration, a topic configuration or a filter
/// rule is open; the queue and topic configurations being read; the rules read
/// for them and the name and value of the rule being read; the queue and topic
/// configurations kept; whether EventBridge delivery is on; and the failure,
/// if any.
#[verifier::ext_equal]
pub struct NotifScan {
    pub tag: Seq<char>,
    pub in_queue: bool,
    pub in_topic: bool,
    pub in_rule: bool,
    pub cur_q: ConfigView,
    pub cur_t: ConfigView,
    pub rules: Seq<(Seq<char>, Seq<char>)>,
    pub rule_name: Seq<char>,
    pub rule_value: Seq<char>,
    pub queues: Seq<ConfigView>,
    pub topics: Seq<ConfigView>,
    pub eventbridge: bool,
    pub error: Option<Seq<char>>,
}

/// Nothing read yet.
pub open spec fn notif_initial() -> NotifScan {
    NotifScan {
        tag: Seq::empty(),
        in_queue: false,
        in_topic: false,
        in_rule: false,
        cur_q: empty_config(),
        cur_t: empty_config(),
        rules: Seq::empty(),
        rule_name: Seq::empty(),
        rule_value: Seq::empty(),
        queues: Seq::empty(),
        topics: Seq::empty(),
        eventbridge: false,
        error: None,
    }
}

/// An element opens: it becomes the current element; a queue or topic
/// configuration starts afresh, with no rules; EventBridge delivery is turned
/// on; a filter rule starts with no name and no value.
pub open spec fn notif_start(s0: NotifScan, n: Seq<char>) -> NotifScan {
    let s = NotifScan { tag: n, ..s0 };
    if n == "QueueConfiguration"@ {
        NotifScan { in_queue: true, cur_q: empty_config(), rules: Seq::empty(), ..s }
    } else if n == "TopicConfiguration"@ {
        NotifScan { in_topic: true, cur_t: empty_config(), rules: Seq::empty(), ..s }
    } else if n == "EventBridgeConfiguration"@ {
        NotifScan { eventbridge: true, ..s }
    } else if n == "FilterRule"@ {
        NotifScan { in_rule: true, rule_name: Seq::empty(), rule_value: Seq::empty(), ..s }
    } else {
        s
    }
}

/// Text in the current element: a rule's name or value inside a filter rule;
/// else the id, the ARN (in `Queue`/`Topic` or the configuration element
/// itself) or one more event of the open configuration.
pub open spec fn notif_text(s: NotifScan, t: Seq<char>) -> NotifScan {
    if s.in_rule {
        if s.tag == "Name"@ {
            NotifScan { rule_name: t, ..s }
        } else if s.tag == "Value"@ {
            NotifScan { rule_value: t, ..s }
        } else {
            s
        }
    } else if s.in_queue {
        if s.tag == "Id"@ {
            NotifScan { cur_q: ConfigView { id: t, ..s.cur_q }, ..s }
        } else if s.tag == "Queue"@ || s.tag == "QueueConfiguration"@ {
            NotifScan { cur_q: ConfigView { arn: t, ..s.cur_q }, ..s }
        } else if s.tag == "Event"@ {
            NotifScan { cur_q: ConfigView { events: s.cur_q.events.push(t), ..s.cur_q }, ..s }
        } else {
            s
        }
    } else if s.in_topic {
        if s.tag == "Id"@ {
            NotifScan { cur_t: ConfigView { id: t, ..s.cur_t }, ..s }
        } else if s.tag == "Topic"@ || s.tag == "TopicConfiguration"@ {
            NotifScan { cur_t: ConfigView { arn: t, ..s.cur_t }, ..s }
        } else if s.tag == "Event"@ {
            NotifScan { cur_t: ConfigView { events: s.cur_t.events.push(t), ..s.cur_t }, ..s }
        } else {
            s
        }
    } else {
        s
    }
}

/// A configuration as it is kept when its element closes: with the rules
/// read, as its filter, when there are any.
pub open spec fn with_rules(c: ConfigView, rules: Seq<(Seq<char>, Seq<char>)>) -> ConfigView {
    if rules.len() > 0 {
        ConfigView { filter: Some(rules), ..c }
    } else {
        c
    }
}

/// An element closes: a filter rule with a name and a value is kept; a queue
/// or topic configuration takes the rules as its filter and is kept when it
/// names an ARN.
pub open spec fn notif_end(s: NotifScan, n: Seq<char>) -> NotifScan {
    if n == "FilterRule"@ {
        NotifScan {
            rules: if s.rule_name.len() > 0 && s.rule_value.len() > 0 {
                s.rules.push((s.rule_name, s.rule_value))
            } else {
                s.rules
            },
            in_rule: false,
            ..s
        }
    } else if n == "QueueConfiguration"@ {
        let q = with_rules(s.cur_q, s.rules);
        NotifScan {
            cur_q: q,
            queues: if q.arn.len() > 0 { s.queues.push(q) } else { s.queues },
            in_queue: false,
            ..s
        }
    } else if n == "TopicConfiguration"@ {
        let t = with_rules(s.cur_t, s.rules);
        NotifScan {
            cur_t: t,
            topics: if t.arn.len() > 0 { s.topics.push(t) } else { s.topics },
            in_topic: false,
            ..s
        }
    } else {
        s
    }
}

/// What the events of a notification configuration body give, read in
/// order up to the first failure.
pub open spec fn notif_scan(ts: Seq<XmlToken>) -> NotifScan
    decreases ts.len(),
{
    if ts.len() == 0 {
        notif_initial()
    } else {
        let s = notif_scan(ts.drop_last());
        if s.error is Some {
            s
        } else {
            match ts.last() {
                XmlToken::Start(n) => notif_start(s, n@),
                XmlToken::Empty(n) => if n@ == "EventBridgeConfiguration"@ {
                    NotifScan { eventbridge: true, ..s }
                } else {
                    s
                },
                XmlToken::Text(t) => notif_text(s, t@),
                XmlToken::End(n) => notif_end(s, n@),
                XmlToken::BadText(m) => NotifScan { error: Some(m@), ..s },
                XmlToken::Fail(m) => NotifScan { error: Some("XML parse error: "@ + m@), ..s },
                _ => s,
            }
        }
    }
}

/// A copy of a list of filter rules.
fn copy_rules(rs: &Vec<NotificationFilterRule>) -> (r: Vec<NotificationFilterRule>)
    ensures
        rules_view(r@) == rules_view(rs@),
{
    let mut out: Vec<NotificationFilterRule> = Vec::new();
    let mut i: usize = 0;
    while i < rs.len()
        invariant
            i <= rs@.len(),
            out@.len() == i,
            forall|j: int| 0 <= j < i ==> #[trigger] out@[j] == rs@[j],
        decreases rs@.len() - i,
    {
        out.push(NotificationFilterRule { name: rs[i].name.clone(), value: rs[i].value.clone() });
        i = i + 1;
    }
    assert(rules_view(out@) =~= rules_view(rs@));
    out
}

/// A copy of a key filter.
fn copy_filter(f: &Option<NotificationFilter>) -> (r: Option<NotificationFilter>)
    ensures
        filter_view(r) == filter_view(*f),
{
    match f {
        Some(f) => Some(NotificationFilter { rules: copy_rules(&f.rules) }),
        None => None,
    }
}

/// The reading state, held in plain values.
struct NotifReading {
    tag: String,
    in_queue: bool,
    in_topic: bool,
    in_rule: bool,
    q: QueueNotificationConfig,
    t: TopicNotificationConfig,
    rules: Vec<NotificationFilterRule>,
    rule_name: String,
    rule_value: String,
    config: BucketNotificationConfig,
}

impl NotifReading {
    spec fn view(&self) -> NotifScan {
        NotifScan {
            tag: self.tag@,
            in_queue: self.in_queue,
            in_topic: self.in_topic,
            in_rule: self.in_rule,
            cur_q: queue_config_view(self.q),
            cur_t: topic_config_view(self.t),
            rules: rules_view(self.rules@),
            rule_name: self.rule_name@,
            rule_value: self.rule_value@,
            queues: self.config.queue_configurations@.map_values(|c: QueueNotificationConfig| queue_config_view(c)),
            topics: self.config.topic_configurations@.map_values(|c: TopicNotificationConfig| topic_config_view(c)),
            eventbridge: self.config.eventbridge_enabled,
            error: None,
        }
    }
}

/// A queue configuration with nothing set.
fn new_queue_config() -> (q: QueueNotificationConfig)
    ensures
        queue_config_view(q) =~= empty_config(),
{
    let q = QueueNotificationConfig { id: String::new(), queue_arn: String::new(), events: Vec::new(), filter: None };
    assert(views(q.events@) =~= Seq::<Seq<char>>::empty());
    q
}

/// A topic configuration with nothing set.
fn new_topic_config() -> (t: TopicNotificationConfig)
    ensures
        topic_config_view(t) =~= empty_config(),
{
    let t = TopicNotificationConfig { id: String::new(), topic_arn: String::new(), events: Vec::new(), filter: None };
    assert(views(t.events@) =~= Seq::<Seq<char>>::empty());
    t
}

/// An element opens.
fn notif_on_start(st: &mut NotifReading, n: &str)
    ensures
        final(st).view() =~= notif_start(old(st).view(), n@),
{
    st.tag = crate::text::copy_str(n);
    if str_eq(n, "QueueConfiguration") {
        st.in_queue = true;
        st.q = new_queue_config();
        st.rules = Vec::new();
        assert(rules_view(st.rules@) =~= Seq::empty());
    } else if str_eq(n, "TopicConfiguration") {
        st.in_topic = true;
        st.t = new_topic_config();
        st.rules = Vec::new();
        assert(rules_view(st.rules@) =~= Seq::empty());
    } else if str_eq(n, "EventBridgeConfiguration") {
        st.config.eventbridge_enabled = true;
    } else if str_eq(n, "FilterRule") {
        st.in_rule = true;
        st.rule_name = String::new();
        st.rule_value = String::new();
    }
}

/// Text in the current element.
fn notif_on_text(st: &mut NotifReading, t: &str)
    ensures
        final(st).view() =~= notif_text(old(st).view(), t@),
{
    let tag = st.tag.clone();
    let tg = tag.as_str();
    if st.in_rule {
        if str_eq(tg, "Name") {
            st.rule_name = crate::text::copy_str(t);
        } else if str_eq(tg, "Value") {
            st.rule_value = crate::text::copy_str(t);
        }
    } else if st.in_queue {
        if str_eq(tg, "Id") {
            st.q.id = crate::text::copy_str(t);
        } else if str_eq(tg, "Queue") || str_eq(tg, "QueueConfiguration") {
            st.q.queue_arn = crate::text::copy_str(t);
        } else if str_eq(tg, "Event") {
            let ghost before = st.q.events@;
            st.q.events.push(crate::text::copy_str(t));
            assert(views(st.q.events@) =~= views(before).push(t@));
        }
    } else if st.in_topic {
        if str_eq(tg, "Id") {
            st.t.id = crate::text::copy_str(t);
        } else if str_eq(tg, "Topic") || str_eq(tg, "TopicConfiguration") {
            st.t.topic_arn = crate::text::copy_str(t);
        } else if str_eq(tg, "Event") {
            let ghost before = st.t.events@;
            st.t.events.push(crate::text::copy_str(t));
            assert(views(st.t.events@) =~= views(before).push(t@));
        }
    }
}

/// A copy of a queue configuration.
fn copy_queue_config(q: &QueueNotificationConfig) -> (r: QueueNotificationConfig)
    ensures
        queue_config_view(r) =~= queue_config_view(*q),
{
    QueueNotificationConfig {
        id: q.id.clone(),
        queue_arn: q.queue_arn.clone(),
        events: crate::ses::state::copy_strings(&q.events),
        filter: copy_filter(&q.filter),
    }
}

/// A copy of a topic configuration.
fn copy_topic_config(t: &TopicNotificationConfig) -> (r: TopicNotificationConfig)
    ensures
        topic_config_view(r) =~= topic_config_view(*t),
{
    TopicNotificationConfig {
        id: t.id.clone(),
        topic_arn: t.topic_arn.clone(),
        events: crate::ses::state::copy_strings(&t.events),
        filter: copy_filter(&t.filter),
    }
}

/// An element closes.
fn notif_on_end(st: &mut NotifReading, n: &str)
    ensures
        final(st).view() =~= notif_end(old(st).view(), n@),
{
    if str_eq(n, "FilterRule") {
        if !st.rule_name.as_str().is_empty() && !st.rule_value.as_str().is_empty() {
            let ghost before = st.rules@;
            st.rules.push(NotificationFilterRule { name: st.rule_name.clone(), value: st.rule_value.clone() });
            assert(rules_view(st.rules@) =~= rules_view(before).push((st.rule_name@, st.rule_value@)));
        }
        st.in_rule = false;
    } else if str_eq(n, "QueueConfiguration") {
        if st.rules.len() > 0 {
            st.q.filter = Some(NotificationFilter { rules: copy_rules(&st.rules) });
        }
        if !st.q.queue_arn.as_str().is_empty() {
            let ghost before = st.config.queue_configurations@;
            let c = copy_queue_config(&st.q);
            st.config.queue_configurations.push(c);
            assert(st.config.queue_configurations@.map_values(|c: QueueNotificationConfig| queue_config_view(c))
                =~= before.map_values(|c: QueueNotificationConfig| queue_config_view(c)).push(queue_config_view(st.q)));
        }
        st.in_queue = false;
    } else if str_eq(n, "TopicConfiguration") {
        if st.rules.len() > 0 {
            st.t.filter = Some(NotificationFilter { rules: copy_rules(&st.rules) });
        }
        if !st.t.topic_arn.as_str().is_empty() {
            let ghost before = st.config.topic_configurations@;
            let c = copy_topic_config(&st.t);
            st.config.topic_configurations.push(c);
            assert(st.config.topic_configurations@.map_values(|c: TopicNotificationConfig| topic_config_view(c))
                =~= before.map_values(|c: TopicNotificationConfig| topic_config_view(c)).push(topic_config_view(st.t)));
        }
        st.in_topic = false;
    }
}

/// Reads a notification configuration from the events of its body: the
/// queue and topic configurations that name an ARN, with their ids, events and
/// filter rules, and whether EventBridge delivery is on; text that cannot be
/// unescaped, or a failure to read, is a bad request.
pub fn notification_configuration_from_tokens(ts: &Vec<XmlToken>) -> (r: Result<BucketNotificationConfig, S3RequestError>)
    ensures
        match notif_scan(ts@).error {
            Some(m) => r matches Err(S3RequestError::BadRequest(x)) && x@ == m,
            None => r matches Ok(c) && c.queue_configurations@.map_values(|q: QueueNotificationConfig| queue_config_view(q))
                == notif_scan(ts@).queues && c.topic_configurations@.map_values(
                |t: TopicNotificationConfig| topic_config_view(t),
            ) == notif_scan(ts@).topics && c.eventbridge_enabled == notif_scan(ts@).eventbridge,
        },
{
    let mut st = NotifReading {
        tag: String::new(),
        in_queue: false,
        in_topic: false,
        in_rule: false,
        q: new_queue_config(),
        t: new_topic_config(),
        rules: Vec::new(),
        rule_name: String::new(),
        rule_value: String::new(),
        config: BucketNotificationConfig {
            queue_configurations: Vec::new(),
            topic_configurations: Vec::new(),
            eventbridge_enabled: false,
        },
    };
    assert(st.view() =~= notif_initial());
    assert(ts@.subrange(0, 0) =~= Seq::<XmlToken>::empty());
    let mut i: usize = 0;
    while i < ts.len()
        invariant
            i <= ts@.len(),
            notif_scan(ts@.subrange(0, i as int)) == st.view(),
        decreases ts@.len() - i,
    {
        let ghost pre = ts@.subrange(0, i + 1);
        assert(pre.drop_last() =~= ts@.subrange(0, i as int));
        assert(pre.last() == ts@[i as int]);
        match &ts[i] {
            XmlToken::Start(n) => {
                notif_on_start(&mut st, n.as_str());
            },
            XmlToken::Empty(n) => {
                if str_eq(n.as_str(), "EventBridgeConfiguration") {
                    st.config.eventbridge_enabled = true;
                }
                assert(st.view() =~= notif_scan(pre));
            },
            XmlToken::Text(t) => {
                notif_on_text(&mut st, t.as_str());
            },
            XmlToken::End(n) => {
                notif_on_end(&mut st, n.as_str());
            },
            XmlToken::BadText(m) => {
                proof {
                    lemma_notif_scan_stops(ts@, i as int);
                }
                return Err(S3RequestError::BadRequest(m.clone()));
            },
            XmlToken::Fail(m) => {
                let mut x = String::new();
                append(&mut x, "XML parse error: ");
                append(&mut x, m.as_str());
                proof {
                    lemma_notif_scan_stops(ts@, i as int);
                }
                return Err(S3RequestError::BadRequest(x));
            },
            _ => {},
        }
        i = i + 1;
    }
    assert(ts@.subrange(0, ts@.len() as int) =~= ts@);
    Ok(st.config)
}

/// Once reading has failed, later events change nothing.
proof fn lemma_notif_scan_stops(ts: Seq<XmlToken>, i: int)
    requires
        0 <= i < ts.len(),
        notif_scan(ts.subrange(0, i + 1)).error is Some,
    ensures
        notif_scan(ts) == notif_scan(ts.subrange(0, i + 1)),
    decreases ts.len(),
{
    if ts.len() == i + 1 {
        assert(ts.subrange(0, i + 1) =~= ts);
    } else {
        assert(ts.drop_last().subrange(0, i + 1) =~= ts.subrange(0, i + 1));
        lemma_notif_scan_stops(ts.drop_last(), i);
    }
}

/// Reads the notification configuration of a bucket from an XML body, from
/// the events the reader yields on it (see
/// `notification_configuration_from_tokens`).
pub fn parse_notification_configuration(body: &[u8]) -> (r: Result<BucketNotificationConfig, S3RequestError>)
    ensures
        exists|ts: Seq<XmlToken>|
            #![trigger token_events(ts)]
            token_events(ts) == xml_read(body@) && match notif_scan(ts).error {
                Some(m) => r matches Err(S3RequestError::BadRequest(x)) && x@ == m,
                None => r matches Ok(c) && c.queue_configurations@.map_values(
                    |q: QueueNotificationConfig| queue_config_view(q),
                ) == notif_scan(ts).queues && c.topic_configurations@.map_values(
                    |t: TopicNotificationConfig| topic_config_view(t),
                ) == notif_scan(ts).topics && c.eventbridge_enabled == notif_scan(ts).eventbridge,
            },
{
    let ts = read_tokens(body);
    notification_configuration_from_tokens(&ts)
}

} // verus!
