use ruststack::route53::handlers::{error_body, route53_route, unsupported_action, Route53Route};
use ruststack::route53::state::{format_hex14, normalize_name, normalize_zone_id, Route53Error, Route53State};
use ruststack::route53::types::{
    Change, ChangeBatch, ChangeResourceRecordSetsRequest, CreateHostedZoneRequest, HostedZoneConfig, ResourceRecord,
    ResourceRecordSet,
};
use ruststack::s3::handlers::S3Method;

fn record(name: &str, t: &str, v: &str) -> ResourceRecordSet {
    ResourceRecordSet {
        name: name.to_string(),
        record_type: t.to_string(),
        ttl: Some(300),
        resource_records: Some(vec![ResourceRecord { value: v.to_string() }]),
        set_identifier: None,
        weight: None,
    }
}

fn change(action: &str, r: ResourceRecordSet) -> Change {
    Change { action: action.to_string(), resource_record_set: r }
}

#[test]
fn test_route53_hosted_zone_and_rrset_lifecycle() {
    let mut state = Route53State::new("000000000000".to_string(), "us-east-1".to_string());
    let zone_resp = state
        .create_hosted_zone(CreateHostedZoneRequest {
            name: "example.com".to_string(),
            caller_reference: "ref-123".to_string(),
            hosted_zone_config: Some(HostedZoneConfig { comment: Some("Test Zone".to_string()), private_zone: Some(false) }),
        })
        .unwrap();
    let zone_id = zone_resp.hosted_zone.id.clone();
    assert_eq!(zone_resp.hosted_zone.name, "example.com.");
    assert!(!zone_resp.delegation_set.name_servers.is_empty());

    let change_resp = state
        .change_resource_record_sets(
            &zone_id,
            ChangeResourceRecordSetsRequest {
                change_batch: ChangeBatch {
                    comment: Some("Add A record".to_string()),
                    changes: vec![
                        change("UPSERT", record("api.example.com", "A", "1.2.3.4")),
                        change("UPSERT", record("www.example.com", "CNAME", "example.com.")),
                    ],
                },
            },
        )
        .unwrap();
    assert_eq!(change_resp.change_info.status, "INSYNC");

    let list_rrsets = state.list_resource_record_sets(&zone_id).unwrap();
    assert_eq!(list_rrsets.resource_record_sets.len(), 3);

    let route = route53_route(S3Method::Get, &format!("/2013-04-01{}/rrset", zone_id));
    match route {
        Route53Route::ListResourceRecordSets(id) => assert_eq!(id, zone_id.trim_start_matches("/hostedzone/")),
        other => panic!("wrong route {:?}", other),
    }
}

#[test]
fn route53_zone_ids_are_fourteen_hex_digits() {
    assert_eq!(format_hex14(0), "00000000000000");
    assert_eq!(format_hex14(255), "000000000000FF");
    assert_eq!(format_hex14(u64::MAX), "FFFFFFFFFFFFFFFF");
    let mut state = Route53State::new("000000000000".to_string(), "us-east-1".to_string());
    let r = state
        .create_hosted_zone(CreateHostedZoneRequest { name: "a.org.".into(), caller_reference: "c".into(), hosted_zone_config: None })
        .unwrap();
    let id = r.hosted_zone.id.clone();
    assert!(id.starts_with("/hostedzone/Z"));
    assert!(id.len() >= "/hostedzone/Z".len() + 14);
    assert!(r.change_info.id.starts_with("/change/C"));
    assert_eq!(r.hosted_zone.name, "a.org.");
    assert_eq!(r.hosted_zone.resource_record_set_count, Some(1));
    let got = state.get_hosted_zone(&id).unwrap();
    assert_eq!(got.hosted_zone.resource_record_set_count, Some(1));
    assert_eq!(got.hosted_zone.config.unwrap().private_zone, Some(false));
}

#[test]
fn route53_normalization() {
    assert_eq!(normalize_name("example.com"), "example.com.");
    assert_eq!(normalize_name("example.com."), "example.com.");
    assert_eq!(normalize_zone_id("/hostedzone/Z123"), "Z123");
    assert_eq!(normalize_zone_id("/hostedzone//hostedzone/Z1"), "Z1");
    assert_eq!(normalize_zone_id("//Z9"), "Z9");
    assert_eq!(normalize_zone_id("Z7"), "Z7");
}

#[test]
fn route53_changes_upsert_and_delete() {
    let mut state = Route53State::new("000000000000".to_string(), "us-east-1".to_string());
    let z = state
        .create_hosted_zone(CreateHostedZoneRequest { name: "x.com".into(), caller_reference: "c".into(), hosted_zone_config: None })
        .unwrap();
    let id = z.hosted_zone.id;
    let req = ChangeResourceRecordSetsRequest {
        change_batch: ChangeBatch {
            comment: None,
            changes: vec![
                change("create", record("b.x.com", "a", "1.1.1.1")),
                change("UPSERT", record("a.x.com.", "TXT", "t")),
                change("delete", record("b.x.com", "A", "")),
                change("bogus", record("c.x.com", "A", "")),
            ],
        },
    };
    state.change_resource_record_sets(&id, req).unwrap();
    let list = state.list_resource_record_sets(&id).unwrap().resource_record_sets;
    let names: Vec<(String, String)> = list.iter().map(|r| (r.name.clone(), r.record_type.clone())).collect();
    assert_eq!(names, vec![("a.x.com.".to_string(), "TXT".to_string()), ("x.com.".to_string(), "NS".to_string())]);
}

#[test]
fn route53_missing_zone_errors() {
    let mut state = Route53State::new("000000000000".to_string(), "us-east-1".to_string());
    match state.get_hosted_zone("/hostedzone/ZNOPE") {
        Err(Route53Error::NoSuchHostedZone(m)) => assert_eq!(m, "No hosted zone found with ID: /hostedzone/ZNOPE"),
        _ => panic!("expected missing zone"),
    }
    let e = state.delete_hosted_zone("ZNOPE").unwrap_err();
    let (status, kind, msg) = e.error_parts();
    assert_eq!(status, 404);
    assert_eq!(kind, "NoSuchHostedZone");
    assert_eq!(msg, "No hosted zone found with ID: ZNOPE");
    assert_eq!(e.message(), "NoSuchHostedZone: No hosted zone found with ID: ZNOPE");
    assert_eq!(Route53Error::HostedZoneAlreadyExists("z".into()).error_parts().0, 409);
    assert_eq!(Route53Error::InvalidInput("bad".into()).error_parts().0, 400);
    assert_eq!(Route53Error::NoSuchChange("c".into()).error_parts().0, 404);
}

#[test]
fn route53_list_sorted_by_name_and_delete() {
    let mut state = Route53State::new("000000000000".to_string(), "us-east-1".to_string());
    for n in ["zeta.com", "alpha.com", "mid.com"] {
        state.create_hosted_zone(CreateHostedZoneRequest { name: n.into(), caller_reference: "c".into(), hosted_zone_config: None }).unwrap();
    }
    let list = state.list_hosted_zones().unwrap();
    let names: Vec<&str> = list.hosted_zones.iter().map(|z| z.name.as_str()).collect();
    assert_eq!(names, vec!["alpha.com.", "mid.com.", "zeta.com."]);
    assert_eq!(list.max_items, Some(100));
    assert!(!list.is_truncated);
    let id = list.hosted_zones[0].id.clone();
    let info = state.delete_hosted_zone(&id).unwrap();
    assert_eq!(info.status, "INSYNC");
    assert_eq!(state.list_hosted_zones().unwrap().hosted_zones.len(), 2);
    let snap = state.export_snapshot();
    let mut other = Route53State::new("000000000000".to_string(), "us-east-1".to_string());
    other.import_snapshot(snap);
    assert_eq!(other.list_hosted_zones().unwrap().hosted_zones.len(), 2);
    other.reset();
    assert_eq!(other.list_hosted_zones().unwrap().hosted_zones.len(), 0);
}

#[test]
fn route53_routes() {
    assert!(matches!(route53_route(S3Method::Post, "/2013-04-01/hostedzone"), Route53Route::CreateHostedZone));
    assert!(matches!(route53_route(S3Method::Get, "/hostedzone/"), Route53Route::ListHostedZones));
    assert!(matches!(route53_route(S3Method::Delete, "/2013-04-01/hostedzone/Z1"), Route53Route::DeleteHostedZone(_)));
    assert!(matches!(route53_route(S3Method::Post, "/hostedzone/Z1/rrset"), Route53Route::ChangeResourceRecordSets(_)));
    assert!(matches!(route53_route(S3Method::Put, "/hostedzone"), Route53Route::Unsupported));
    assert!(matches!(route53_route(S3Method::Get, "/other"), Route53Route::Unsupported));
    let (status, body) = unsupported_action();
    assert_eq!(status, 400);
    assert_eq!(body, "{\"__type\":\"InvalidAction\",\"message\":\"Unsupported Route 53 action\"}");
    assert_eq!(error_body("T", "a\"b"), "{\"__type\":\"T\",\"message\":\"a\\\"b\"}");
}
