use ruststack::s3::handlers::{
    complete_request_from_tokens, delete_request_from_tokens, extract_bucket_and_key, handle_s3_request,
    make_s3_error_response, parse_complete_multipart_request, parse_delete_objects_request, user_metadata, S3Method,
    S3RequestError, S3Response, XmlToken,
};
use ruststack::s3::storage::InMemoryStorage;

fn req(
    s: &mut InMemoryStorage,
    m: S3Method,
    path: &str,
    query: Option<&str>,
    headers: Vec<(&str, &str)>,
    body: &[u8],
) -> S3Response {
    let hs: Vec<(String, Option<String>)> =
        headers.into_iter().map(|(k, v)| (k.to_string(), Some(v.to_string()))).collect();
    handle_s3_request(s, m, path, None, query, &hs, body.to_vec(), "req-id")
}

fn body_text(r: &S3Response) -> String {
    String::from_utf8(r.body.clone()).unwrap()
}

fn header<'a>(r: &'a S3Response, name: &str) -> Option<&'a str> {
    r.headers.iter().find(|(k, _)| k == name).map(|(_, v)| v.as_str())
}

#[test]
fn test_bucket_lifecycle() {
    let mut s = InMemoryStorage::new();
    let r = req(&mut s, S3Method::Put, "/test-bucket", None, vec![], b"");
    assert_eq!(r.status, 200);
    assert_eq!(header(&r, "location"), Some("/test-bucket"));
    let r = req(&mut s, S3Method::Head, "/test-bucket", None, vec![], b"");
    assert_eq!(r.status, 200);
    let r = req(&mut s, S3Method::Get, "/", None, vec![], b"");
    assert_eq!(r.status, 200);
    assert!(body_text(&r).contains("<Name>test-bucket</Name>"));
    let r = req(&mut s, S3Method::Delete, "/test-bucket", None, vec![], b"");
    assert_eq!(r.status, 204);
    let r = req(&mut s, S3Method::Head, "/test-bucket", None, vec![], b"");
    assert_eq!(r.status, 404);
}

#[test]
fn test_object_crud_and_range() {
    let mut s = InMemoryStorage::new();
    req(&mut s, S3Method::Put, "/my-bucket", None, vec![], b"");
    let r = req(
        &mut s,
        S3Method::Put,
        "/my-bucket/hello.txt",
        None,
        vec![("content-type", "text/plain"), ("x-amz-meta-custom", "rust-rocks")],
        b"Hello, RustStack!",
    );
    assert_eq!(r.status, 200);
    assert!(header(&r, "etag").is_some());
    let r = req(&mut s, S3Method::Get, "/my-bucket/hello.txt", None, vec![], b"");
    assert_eq!(r.status, 200);
    assert_eq!(r.body, b"Hello, RustStack!".to_vec());
    assert_eq!(header(&r, "content-type"), Some("text/plain"));
    assert_eq!(header(&r, "content-length"), Some("17"));
    assert_eq!(header(&r, "x-amz-meta-custom"), Some("rust-rocks"));
    let r = req(&mut s, S3Method::Get, "/my-bucket/hello.txt", None, vec![("range", "bytes=0-4")], b"");
    assert_eq!(r.status, 206);
    assert_eq!(header(&r, "content-range"), Some("bytes 0-4/17"));
    assert_eq!(r.body, b"Hello".to_vec());
    let r = req(&mut s, S3Method::Head, "/my-bucket/hello.txt", None, vec![], b"");
    assert_eq!(r.status, 200);
    assert!(r.body.is_empty());
    let r = req(&mut s, S3Method::Delete, "/my-bucket/hello.txt", None, vec![], b"");
    assert_eq!(r.status, 204);
    let r = req(&mut s, S3Method::Get, "/my-bucket/hello.txt", None, vec![], b"");
    assert_eq!(r.status, 404);
    assert!(body_text(&r).contains("<Code>NoSuchKey</Code>"));
}

#[test]
fn test_list_objects_v2() {
    let mut s = InMemoryStorage::new();
    req(&mut s, S3Method::Put, "/data-bucket", None, vec![], b"");
    for i in 1..=5 {
        let path = format!("/data-bucket/file_{}.txt", i);
        let data = format!("content {}", i);
        req(&mut s, S3Method::Put, &path, None, vec![], data.as_bytes());
    }
    let r = req(&mut s, S3Method::Get, "/data-bucket", Some("list-type=2&max-keys=3"), vec![], b"");
    assert_eq!(r.status, 200);
    let xml = body_text(&r);
    assert!(xml.contains("<Key>file_1.txt</Key>"));
    assert!(xml.contains("<Key>file_2.txt</Key>"));
    assert!(xml.contains("<Key>file_3.txt</Key>"));
    assert!(xml.contains("<IsTruncated>true</IsTruncated>"));
}

#[test]
fn test_multipart_upload_lifecycle() {
    let mut s = InMemoryStorage::new();
    req(&mut s, S3Method::Put, "/mp-bucket", None, vec![], b"");
    let r = req(&mut s, S3Method::Post, "/mp-bucket/large.bin", Some("uploads"), vec![], b"");
    assert_eq!(r.status, 200);
    let xml = body_text(&r);
    let upload_id = xml.split("<UploadId>").nth(1).unwrap().split("</UploadId>").next().unwrap().to_string();
    let q1 = format!("uploadId={}&partNumber=1", upload_id);
    let r = req(&mut s, S3Method::Put, "/mp-bucket/large.bin", Some(&q1), vec![], b"PART_ONE_DATA_");
    assert_eq!(r.status, 200);
    let etag1 = header(&r, "etag").unwrap().to_string();
    let q2 = format!("uploadId={}&partNumber=2", upload_id);
    let r = req(&mut s, S3Method::Put, "/mp-bucket/large.bin", Some(&q2), vec![], b"PART_TWO_DATA");
    let etag2 = header(&r, "etag").unwrap().to_string();
    let ql = format!("uploadId={}", upload_id);
    let r = req(&mut s, S3Method::Get, "/mp-bucket/large.bin", Some(&ql), vec![], b"");
    let xml = body_text(&r);
    assert!(xml.contains("<PartNumber>1</PartNumber>"));
    assert!(xml.contains("<PartNumber>2</PartNumber>"));
    let complete = format!(
        "<CompleteMultipartUpload><Part><PartNumber>2</PartNumber><ETag>{}</ETag></Part><Part><PartNumber>1</PartNumber><ETag>{}</ETag></Part></CompleteMultipartUpload>",
        etag2, etag1
    );
    let r = req(&mut s, S3Method::Post, "/mp-bucket/large.bin", Some(&ql), vec![], complete.as_bytes());
    assert_eq!(r.status, 200);
    let r = req(&mut s, S3Method::Get, "/mp-bucket/large.bin", None, vec![], b"");
    assert_eq!(r.body, b"PART_ONE_DATA_PART_TWO_DATA".to_vec());
}

#[test]
fn s3_bad_part_number_and_unknown_routes() {
    let mut s = InMemoryStorage::new();
    req(&mut s, S3Method::Put, "/b", None, vec![], b"");
    let r = req(&mut s, S3Method::Put, "/b/k", Some("uploadId=u&partNumber=x"), vec![], b"");
    assert_eq!(r.status, 400);
    assert!(body_text(&r).contains("<Code>InvalidArgument</Code>"));
    assert!(body_text(&r).contains("<Message>Invalid partNumber</Message>"));
    let r = req(&mut s, S3Method::Post, "/b/k", None, vec![], b"");
    assert_eq!(r.status, 400);
    assert!(body_text(&r).contains("Unsupported POST operation on key"));
    let r = req(&mut s, S3Method::Post, "/b", None, vec![], b"");
    assert_eq!(r.status, 404);
    assert!(body_text(&r).contains("Endpoint not found"));
    let r = req(&mut s, S3Method::Other, "/", None, vec![], b"");
    assert_eq!(r.status, 404);
}

#[test]
fn s3_copy_and_batch_delete() {
    let mut s = InMemoryStorage::new();
    req(&mut s, S3Method::Put, "/src", None, vec![], b"");
    req(&mut s, S3Method::Put, "/dst", None, vec![], b"");
    req(&mut s, S3Method::Put, "/src/a.txt", None, vec![], b"abc");
    let r = req(&mut s, S3Method::Put, "/dst/b.txt", None, vec![("x-amz-copy-source", "/src/a.txt")], b"");
    assert_eq!(r.status, 200);
    assert!(body_text(&r).contains("<CopyObjectResult"));
    let r = req(&mut s, S3Method::Get, "/dst/b.txt", None, vec![], b"");
    assert_eq!(r.body, b"abc".to_vec());
    let del = b"<Delete><Quiet>false</Quiet><Object><Key>b.txt</Key></Object><Object><Key>zzz</Key></Object></Delete>";
    let r = req(&mut s, S3Method::Post, "/dst", Some("delete"), vec![], del);
    assert_eq!(r.status, 200);
    assert!(body_text(&r).contains("<Key>b.txt</Key>"));
    let r = req(&mut s, S3Method::Post, "/dst", Some("delete"), vec![], b"<Delete><Key>a&bogus;</Key></Delete>");
    assert_eq!(r.status, 400);
}

#[test]
fn s3_bucket_location() {
    let mut s = InMemoryStorage::new();
    req(&mut s, S3Method::Put, "/loc", None, vec![], b"");
    let r = req(&mut s, S3Method::Get, "/loc", Some("location"), vec![], b"");
    assert_eq!(r.status, 200);
    assert_eq!(
        body_text(&r),
        "<?xml version=\"1.0\" encoding=\"UTF-8\"?>\n<LocationConstraint xmlns=\"http://s3.amazonaws.com/doc/2006-03-01/\"/>"
    );
}

#[test]
fn s3_bucket_and_key_from_path_and_host() {
    assert_eq!(extract_bucket_and_key("/", None), (None, None));
    assert_eq!(extract_bucket_and_key("/b", None), (Some("b".to_string()), None));
    assert_eq!(extract_bucket_and_key("/b/", None), (Some("b".to_string()), None));
    assert_eq!(extract_bucket_and_key("/b/x/y", None), (Some("b".to_string()), Some("x/y".to_string())));
    assert_eq!(
        extract_bucket_and_key("/k/1", Some("photos.s3.amazonaws.com:4566")),
        (Some("photos".to_string()), Some("k/1".to_string()))
    );
    assert_eq!(extract_bucket_and_key("/", Some("docs.localhost")), (Some("docs".to_string()), None));
    assert_eq!(extract_bucket_and_key("/a/b", Some("localhost:4566")), (Some("a".to_string()), Some("b".to_string())));
    assert_eq!(extract_bucket_and_key("/a", Some("s3.localhost")), (Some("a".to_string()), None));
}

#[test]
fn s3_request_bodies_are_read_from_xml() {
    let (keys, quiet) =
        parse_delete_objects_request(b"<Delete><Quiet>true</Quiet><Object><Key>a</Key></Object><Object><Key>b &amp; c</Key></Object></Delete>")
            .unwrap();
    assert_eq!(keys, vec!["a".to_string(), "b & c".to_string()]);
    assert!(quiet);
    let parts = parse_complete_multipart_request(
        b"<C><Part><PartNumber>3</PartNumber><ETag>\"x\"</ETag></Part><Part><PartNumber>1</PartNumber><ETag>y</ETag></Part><Part><ETag>z</ETag></Part></C>",
    )
    .unwrap();
    assert_eq!(parts.len(), 2);
    assert_eq!(parts[0].part_number, 1);
    assert_eq!(parts[0].etag, "\"y\"");
    assert_eq!(parts[1].etag, "\"x\"");
    match parse_delete_objects_request(b"<a></b>") {
        Err(S3RequestError::BadRequest(m)) => assert!(m.starts_with("XML parse error: ")),
        _ => panic!("expected a parse error"),
    }
}

#[test]
fn s3_token_readers() {
    let ts = vec![
        XmlToken::Start("Key".into()),
        XmlToken::Text("k1".into()),
        XmlToken::End("Key".into()),
        XmlToken::Start("Quiet".into()),
        XmlToken::Text("yes".into()),
        XmlToken::Fail("boom".into()),
    ];
    match delete_request_from_tokens(&ts) {
        Err(S3RequestError::BadRequest(m)) => assert_eq!(m, "XML parse error: boom"),
        _ => panic!("expected failure"),
    }
    let ts = vec![
        XmlToken::Start("Part".into()),
        XmlToken::Start("PartNumber".into()),
        XmlToken::Text("2".into()),
        XmlToken::Start("ETag".into()),
        XmlToken::Text("\"\"e\"".into()),
        XmlToken::End("Part".into()),
        XmlToken::Start("Part".into()),
        XmlToken::Start("PartNumber".into()),
        XmlToken::Text("2".into()),
        XmlToken::Start("ETag".into()),
        XmlToken::Text("f".into()),
        XmlToken::End("Part".into()),
    ];
    let parts = complete_request_from_tokens(&ts).unwrap();
    assert_eq!(parts.len(), 2);
    assert_eq!(parts[0].etag, "\"e\"");
    assert_eq!(parts[1].etag, "\"f\"");
}

#[test]
fn s3_user_metadata_keeps_last_value() {
    let hs = vec![
        ("x-amz-meta-a".to_string(), Some("1".to_string())),
        ("content-type".to_string(), Some("t".to_string())),
        ("x-amz-meta-a".to_string(), Some("2".to_string())),
        ("x-amz-meta-b".to_string(), None),
    ];
    let m = user_metadata(&hs);
    assert_eq!(m, vec![("x-amz-meta-a".to_string(), "2".to_string())]);
}

#[test]
fn s3_error_response_shape() {
    let r = make_s3_error_response(&S3RequestError::NotFound("Endpoint not found".into()), "rid");
    assert_eq!(r.status, 404);
    assert_eq!(
        String::from_utf8(r.body).unwrap(),
        "<?xml version=\"1.0\" encoding=\"UTF-8\"?>\n<Error>\n    <Code>NotFound</Code>\n    <Message>Endpoint not found</Message>\n    <RequestId>rid</RequestId>\n</Error>"
    );
    assert_eq!(r.headers[1], ("x-amz-request-id".to_string(), "rid".to_string()));
}

#[test]
fn s3_parse_notification_configuration_reads_targets() {
    let body = b"<NotificationConfiguration><QueueConfiguration><Id>q1</Id><Queue>arn:aws:sqs:us-east-1:000000000000:q</Queue><Event>s3:ObjectCreated:*</Event><Filter><S3Key><FilterRule><Name>prefix</Name><Value>img/</Value></FilterRule><FilterRule><Name>suffix</Name><Value></Value></FilterRule></S3Key></Filter></QueueConfiguration><QueueConfiguration><Id>no-arn</Id></QueueConfiguration><TopicConfiguration><Topic>arn:t</Topic><Event>s3:ObjectRemoved:*</Event></TopicConfiguration><EventBridgeConfiguration/></NotificationConfiguration>";
    let c = ruststack::s3::xml::parse_notification_configuration(body).ok().unwrap();
    assert_eq!(c.queue_configurations.len(), 1);
    let q = &c.queue_configurations[0];
    assert_eq!(q.id, "q1");
    assert_eq!(q.queue_arn, "arn:aws:sqs:us-east-1:000000000000:q");
    assert_eq!(q.events, vec!["s3:ObjectCreated:*".to_string()]);
    let rules = &q.filter.as_ref().unwrap().rules;
    assert_eq!(rules.len(), 1);
    assert_eq!(rules[0].name, "prefix");
    assert_eq!(rules[0].value, "img/");
    assert_eq!(c.topic_configurations.len(), 1);
    assert_eq!(c.topic_configurations[0].topic_arn, "arn:t");
    assert!(c.topic_configurations[0].filter.is_none());
    assert!(c.eventbridge_enabled);
}

#[test]
fn s3_parse_notification_configuration_refuses_broken_xml() {
    let r = ruststack::s3::xml::parse_notification_configuration(b"<A><B></A>");
    assert!(matches!(r, Err(ruststack::s3::handlers::S3RequestError::BadRequest(_))));
    let c = ruststack::s3::xml::parse_notification_configuration(b"").ok().unwrap();
    assert!(c.queue_configurations.is_empty() && c.topic_configurations.is_empty() && !c.eventbridge_enabled);
}

#[test]
fn s3_notification_tokens_bad_text_is_bad_request() {
    let ts = vec![ruststack::s3::handlers::XmlToken::Start("Id".to_string()), ruststack::s3::handlers::XmlToken::BadText("bad escape".to_string())];
    match ruststack::s3::xml::notification_configuration_from_tokens(&ts) {
        Err(ruststack::s3::handlers::S3RequestError::BadRequest(m)) => assert_eq!(m, "bad escape"),
        _ => panic!("expected a bad request"),
    }
}
