//! The REST front of the service: which operation a method and path ask for,
//! and how errors are answered.
use vstd::prelude::*;
use crate::http::{append_json_str, json_str};
use crate::s3::handlers::S3Method;
use crate::text::{append, split_char, split_on, str_eq, views};

verus! {

/// The operation a request asks for; the zone id is as written in the path.
#[derive(Debug)]
pub enum Route53Route {
    CreateHostedZone,
    ListHostedZones,
    GetHostedZone(String),
    DeleteHostedZone(String),
    ChangeResourceRecordSets(String),
    ListResourceRecordSets(String),
    Unsupported,
}

/// The non-empty pieces of `s` between slashes.
pub open spec fn non_empty(parts: Seq<Seq<char>>) -> Seq<Seq<char>>
    decreases parts.len(),
{
    if parts.len() == 0 {
        Seq::empty()
    } else {
        let prev = non_empty(parts.drop_last());
        if parts.last().len() > 0 { prev.push(parts.last()) } else { prev }
    }
}

/// The path segments that name the operation: the non-empty pieces between
/// slashes, without a leading `2013-04-01` version.
pub open spec fn route_segments(path: Seq<char>) -> Seq<Seq<char>> {
    let segs = non_empty(split_on(path, '/'));
    if segs.len() > 0 && segs[0] == "2013-04-01"@ { segs.drop_first() } else { segs }
}

/// The operation of a method and path segments, with the zone id it names.
pub open spec fn route_of(m: S3Method, segs: Seq<Seq<char>>) -> (u8, Option<Seq<char>>) {
    if segs.len() == 1 && segs[0] == "hostedzone"@ {
        if m == S3Method::Post { (1, None) } else if m == S3Method::Get { (2, None) } else { (0, None) }
    } else if segs.len() == 2 && segs[0] == "hostedzone"@ {
        if m == S3Method::Get { (3, Some(segs[1])) } else if m == S3Method::Delete { (4, Some(segs[1])) } else { (0, None) }
    } else if segs.len() == 3 && segs[0] == "hostedzone"@ && segs[2] == "rrset"@ {
        if m == S3Method::Post { (5, Some(segs[1])) } else if m == S3Method::Get { (6, Some(segs[1])) } else { (0, None) }
    } else {
        (0, None)
    }
}

impl Route53Route {
    /// The operation as a number (0 when unsupported) and the zone id it names.
    pub open spec fn code(&self) -> (u8, Option<Seq<char>>) {
        match self {
            Route53Route::Unsupported => (0, None),
            Route53Route::CreateHostedZone => (1, None),
            Route53Route::ListHostedZones => (2, None),
            Route53Route::GetHostedZone(id) => (3, Some(id@)),
            Route53Route::DeleteHostedZone(id) => (4, Some(id@)),
            Route53Route::ChangeResourceRecordSets(id) => (5, Some(id@)),
            Route53Route::ListResourceRecordSets(id) => (6, Some(id@)),
        }
    }
}

/// The operation a request asks for: `POST` and `GET` on `hostedzone` create
/// and list zones; `GET` and `DELETE` on `hostedzone/{id}` read and delete one;
/// `POST` and `GET` on `hostedzone/{id}/rrset` change and list its record sets.
pub fn route53_route(method: S3Method, path: &str) -> (r: Route53Route)
    ensures
        r.code() == route_of(method, route_segments(path@)),
{
    let parts = split_char(path, '/');
    let mut segs: Vec<String> = Vec::new();
    let mut i: usize = 0;
    while i < parts.len()
        invariant
            i <= parts@.len(),
            views(segs@) == non_empty(views(parts@).subrange(0, i as int)),
        decreases parts@.len() - i,
    {
        assert(views(parts@).subrange(0, i + 1).drop_last() =~= views(parts@).subrange(0, i as int));
        let ghost before = segs@;
        if !parts[i].as_str().is_empty() {
            segs.push(parts[i].clone());
            assert(views(segs@) =~= views(before).push(parts@[i as int]@));
        }
        i = i + 1;
    }
    assert(views(parts@).subrange(0, parts@.len() as int) =~= views(parts@));
    let start: usize = if segs.len() > 0 && str_eq(segs[0].as_str(), "2013-04-01") { 1 } else { 0 };
    let ghost sv = route_segments(path@);
    assert(sv =~= views(segs@).subrange(start as int, segs@.len() as int));
    let n = segs.len() - start;
    if n == 1 && str_eq(segs[start].as_str(), "hostedzone") {
        if method == S3Method::Post {
            Route53Route::CreateHostedZone
        } else if method == S3Method::Get {
            Route53Route::ListHostedZones
        } else {
            Route53Route::Unsupported
        }
    } else if n == 2 && str_eq(segs[start].as_str(), "hostedzone") {
        let id = segs[start + 1].clone();
        if method == S3Method::Get {
            Route53Route::GetHostedZone(id)
        } else if method == S3Method::Delete {
            Route53Route::DeleteHostedZone(id)
        } else {
            Route53Route::Unsupported
        }
    } else if n == 3 && str_eq(segs[start].as_str(), "hostedzone") && str_eq(segs[start + 2].as_str(), "rrset") {
        let id = segs[start + 1].clone();
        if method == S3Method::Post {
            Route53Route::ChangeResourceRecordSets(id)
        } else if method == S3Method::Get {
            Route53Route::ListResourceRecordSets(id)
        } else {
            Route53Route::Unsupported
        }
    } else {
        Route53Route::Unsupported
    }
}

/// The JSON body of an error: its type and message (keys in sorted order).
pub open spec fn error_body_text(error_type: Seq<char>, message: Seq<char>) -> Seq<char> {
    "{\"__type\":"@ + json_str(error_type) + ",\"message\":"@ + json_str(message) + "}"@
}

/// The JSON body of an error.
pub fn error_body(error_type: &str, message: &str) -> (r: String)
    ensures
        r@ == error_body_text(error_type@, message@),
{
    let mut s = String::new();
    append(&mut s, "{\"__type\":");
    append_json_str(&mut s, error_type);
    append(&mut s, ",\"message\":");
    append_json_str(&mut s, message);
    append(&mut s, "}");
    assert(s@ =~= error_body_text(error_type@, message@));
    s
}

/// The answer to an unsupported request: 400, `InvalidAction`.
pub fn unsupported_action() -> (r: (u16, String))
    ensures
        r.0 == 400,
        r.1@ == error_body_text("InvalidAction"@, "Unsupported Route 53 action"@),
{
    (400, error_body("InvalidAction", "Unsupported Route 53 action"))
}

} // verus!
