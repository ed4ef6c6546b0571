use ruststack::rds::handlers::{handle_rds_request, parse_i32};
use ruststack::rds::state::{cluster_port, instance_port, RdsError, RdsState};

fn text(r: &ruststack::http::Reply) -> &str {
    r.body.as_str()
}

#[test]
fn test_rds_instance_and_cluster_lifecycle() {
    let mut state = RdsState::new("000000000000".to_string(), "us-east-1".to_string());
    let body = b"Action=CreateDBInstance&DBInstanceIdentifier=test-postgres&Engine=postgres&DBInstanceClass=db.t3.micro&MasterUsername=root";
    let resp = handle_rds_request(&mut state, None, body, "req-1");
    assert_eq!(resp.status, 200);
    assert!(text(&resp).contains("<DBInstanceIdentifier>test-postgres</DBInstanceIdentifier>"));
    assert!(text(&resp).contains("<Address>test-postgres.us-east-1.rds.localhost.localstack.cloud</Address>"));

    let resp = handle_rds_request(&mut state, None, b"Action=DescribeDBInstances&DBInstanceIdentifier=test-postgres", "req-2");
    assert_eq!(resp.status, 200);

    let body = b"Action=CreateDBCluster&DBClusterIdentifier=aurora-pg-cluster&Engine=aurora-postgresql&MasterUsername=postgres";
    let resp = handle_rds_request(&mut state, None, body, "req-3");
    assert_eq!(resp.status, 200);
    assert!(text(&resp).contains("<DBClusterIdentifier>aurora-pg-cluster</DBClusterIdentifier>"));
}

#[test]
fn rds_create_instance_answer_is_exact() {
    let mut state = RdsState::new("000000000000".to_string(), "eu-west-1".to_string());
    let resp = handle_rds_request(&mut state, Some("Action=CreateDBInstance&DBInstanceIdentifier=db1&Engine=MySQL"), b"", "rid");
    assert_eq!(resp.status, 200);
    assert_eq!(resp.content_type, "text/xml");
    let expected = "<CreateDBInstanceResponse xmlns=\"http://rds.amazonaws.com/doc/2014-10-31/\">\n  <CreateDBInstanceResult>\n    <DBInstance>\n  <DBInstanceIdentifier>db1</DBInstanceIdentifier>\n  <DBInstanceClass>db.t3.micro</DBInstanceClass>\n  <Engine>MySQL</Engine>\n  <EngineVersion>15.4</EngineVersion>\n  <DBInstanceStatus>available</DBInstanceStatus>\n  <MasterUsername>postgres</MasterUsername>\n  <Endpoint><Address>db1.eu-west-1.rds.localhost.localstack.cloud</Address><Port>3306</Port><HostedZoneId>Z2YGUSBFPMUBSH</HostedZoneId></Endpoint>\n  <AllocatedStorage>20</AllocatedStorage>\n  <MultiAZ>false</MultiAZ>\n  <StorageType>gp2</StorageType>\n</DBInstance>\n  </CreateDBInstanceResult>\n  <ResponseMetadata>\n    <RequestId>rid</RequestId>\n  </ResponseMetadata>\n</CreateDBInstanceResponse>";
    assert_eq!(resp.body, expected);
}

#[test]
fn rds_duplicate_instance_is_refused() {
    let mut state = RdsState::new("000000000000".to_string(), "us-east-1".to_string());
    let r1 = state.create_db_instance("a".into(), "c".into(), "postgres".into(), None, "u".into(), None, Some(50), None);
    assert!(r1.is_ok());
    assert_eq!(r1.unwrap().allocated_storage, 50);
    let r2 = state.create_db_instance("a".into(), "c".into(), "postgres".into(), None, "u".into(), None, None, None);
    match r2 {
        Err(e) => assert_eq!(e.message(), "DBInstanceAlreadyExists: DBInstance a already exists"),
        Ok(_) => panic!("duplicate accepted"),
    }
    let resp = handle_rds_request(&mut state, None, b"Action=CreateDBInstance&DBInstanceIdentifier=a", "r");
    assert_eq!(resp.status, 400);
    assert!(resp.body.contains("<Message>DBInstanceAlreadyExists: DBInstance a already exists</Message>"));
}

#[test]
fn rds_delete_then_describe_not_found() {
    let mut state = RdsState::new("000000000000".to_string(), "us-east-1".to_string());
    state.create_db_instance("x".into(), "c".into(), "postgres".into(), None, "u".into(), None, None, None).unwrap();
    let deleted = state.delete_db_instance("x").unwrap();
    assert_eq!(deleted.db_instance_status, "deleting");
    let r = state.describe_db_instances(Some("x"));
    match r {
        Err(RdsError::DBInstanceNotFound(id)) => assert_eq!(id, "x"),
        _ => panic!("expected not found"),
    }
    let resp = handle_rds_request(&mut state, None, b"Action=DeleteDBInstance&DBInstanceIdentifier=x", "r");
    assert_eq!(resp.status, 404);
    let resp = handle_rds_request(&mut state, None, b"Action=DescribeDBInstances&DBInstanceIdentifier=x", "r");
    assert_eq!(resp.status, 404);
    assert!(resp.body.contains("DBInstanceNotFound: DBInstance x not found"));
}

#[test]
fn rds_ports_follow_engine() {
    assert_eq!(instance_port("postgres"), 5432);
    assert_eq!(instance_port("aurora-postgresql"), 5432);
    assert_eq!(instance_port("mysql"), 3306);
    assert_eq!(instance_port("mariadb"), 3306);
    assert_eq!(instance_port("oracle"), 1521);
    assert_eq!(instance_port("sqlserver"), 1433);
    assert_eq!(instance_port("db2"), 5432);
    assert_eq!(cluster_port("aurora-postgresql"), 5432);
    assert_eq!(cluster_port("aurora-mysql"), 3306);
}

#[test]
fn rds_engine_case_is_ignored_for_port() {
    let mut state = RdsState::new("000000000000".to_string(), "us-east-1".to_string());
    let inst = state.create_db_instance("o".into(), "c".into(), "ORACLE".into(), None, "u".into(), None, None, None).unwrap();
    assert_eq!(inst.endpoint.unwrap().port, 1521);
}

#[test]
fn rds_cluster_endpoints_and_errors() {
    let mut state = RdsState::new("000000000000".to_string(), "us-east-1".to_string());
    let c = state.create_db_cluster("cl".into(), "aurora-mysql".into(), Some("8.0".into()), "admin".into(), None).unwrap();
    assert_eq!(c.endpoint.unwrap(), "cl.cluster-us-east-1.rds.localhost.localstack.cloud");
    assert_eq!(c.reader_endpoint.unwrap(), "cl.cluster-ro-us-east-1.rds.localhost.localstack.cloud");
    assert_eq!(c.port, 3306);
    assert!(c.multi_az);
    let e = state.create_db_cluster("cl".into(), "x".into(), None, "a".into(), None).unwrap_err();
    assert_eq!(e.message(), "DBClusterAlreadyExistsFault: DBCluster cl already exists");
    let e = state.describe_db_clusters(Some("nope")).unwrap_err();
    assert_eq!(e.message(), "DBClusterNotFoundFault: DBCluster nope not found");
    let resp = handle_rds_request(&mut state, None, b"Action=DescribeDBClusters", "r");
    assert_eq!(resp.status, 200);
    assert!(resp.body.contains("<Endpoint>cl.cluster-us-east-1.rds.localhost.localstack.cloud</Endpoint>"));
}

#[test]
fn rds_snapshot_copies_instance() {
    let mut state = RdsState::new("000000000000".to_string(), "us-east-1".to_string());
    state.create_db_instance("i".into(), "c".into(), "postgres".into(), None, "boss".into(), None, Some(7), None).unwrap();
    let s = state.create_db_snapshot("snap".into(), "i".into()).unwrap();
    assert_eq!(s.engine, "postgres");
    assert_eq!(s.allocated_storage, 7);
    assert_eq!(s.master_username, "boss");
    assert_eq!(s.status, "available");
    let e = state.create_db_snapshot("s2".into(), "missing".into()).unwrap_err();
    assert_eq!(e.message(), "DBInstanceNotFound: DBInstance missing not found");
    let resp = handle_rds_request(&mut state, None, b"Action=CreateDBSnapshot&DBSnapshotIdentifier=s3&DBInstanceIdentifier=missing", "r");
    assert_eq!(resp.status, 400);
}

#[test]
fn rds_unknown_action_is_400() {
    let mut state = RdsState::new("000000000000".to_string(), "us-east-1".to_string());
    let resp = handle_rds_request(&mut state, None, b"Action=RebootDBInstance", "r9");
    assert_eq!(resp.status, 400);
    assert_eq!(
        resp.body,
        "<ErrorResponse xmlns=\"http://rds.amazonaws.com/doc/2014-10-31/\">\n  <Error>\n    <Type>Sender</Type>\n    <Code>InvalidParameterValue</Code>\n    <Message>Unknown Action: RebootDBInstance</Message>\n  </Error>\n  <RequestId>r9</RequestId>\n</ErrorResponse>"
    );
}

#[test]
fn rds_export_import_round_trip() {
    let mut state = RdsState::new("000000000000".to_string(), "us-east-1".to_string());
    state.create_db_instance("b".into(), "c".into(), "postgres".into(), None, "u".into(), None, None, None).unwrap();
    state.create_db_instance("a".into(), "c".into(), "mysql".into(), None, "u".into(), None, None, None).unwrap();
    state.create_db_cluster("k".into(), "aurora-postgresql".into(), None, "u".into(), None).unwrap();
    let snap = state.export_snapshot();
    assert_eq!(snap.instances.len(), 2);
    assert_eq!(snap.instances[0].db_instance_identifier, "a");
    let mut other = RdsState::new("000000000000".to_string(), "us-east-1".to_string());
    other.import_snapshot(snap);
    let all = other.describe_db_instances(None).unwrap();
    assert_eq!(all.len(), 2);
    assert_eq!(all[1].db_instance_identifier, "b");
    assert_eq!(other.describe_db_clusters(None).unwrap().len(), 1);
    other.reset();
    assert_eq!(other.describe_db_instances(None).unwrap().len(), 0);
}

#[test]
fn rds_storage_parameter_must_be_an_i32() {
    assert_eq!(parse_i32("100"), Some(100));
    assert_eq!(parse_i32("-5"), Some(-5));
    assert_eq!(parse_i32("2147483648"), None);
    assert_eq!(parse_i32("abc"), None);
    let mut state = RdsState::new("000000000000".to_string(), "us-east-1".to_string());
    let resp = handle_rds_request(&mut state, None, b"Action=CreateDBInstance&DBInstanceIdentifier=z&AllocatedStorage=big", "r");
    assert!(resp.body.contains("<AllocatedStorage>20</AllocatedStorage>"));
}
