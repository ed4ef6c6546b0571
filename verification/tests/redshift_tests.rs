use ruststack::redshift::handlers::handle_redshift_request;
use ruststack::redshift::state::{RedshiftError, RedshiftState};

#[test]
fn test_redshift_cluster_and_snapshot_lifecycle() {
    let mut state = RedshiftState::new("000000000000".to_string(), "us-east-1".to_string());
    let body = b"Action=CreateCluster&ClusterIdentifier=analytics-dw&NodeType=dc2.large&MasterUsername=admin&DBName=analytics&NumberOfNodes=2";
    let resp = handle_redshift_request(&mut state, None, body, "r1");
    assert_eq!(resp.status, 200);
    assert!(resp.body.contains("<ClusterIdentifier>analytics-dw</ClusterIdentifier>"));
    assert!(resp.body.contains("<Address>analytics-dw.us-east-1.redshift.localhost.localstack.cloud</Address>"));

    let resp = handle_redshift_request(&mut state, None, b"Action=DescribeClusters&ClusterIdentifier=analytics-dw", "r2");
    assert_eq!(resp.status, 200);

    let resp = handle_redshift_request(&mut state, None, b"Action=CreateClusterSnapshot&SnapshotIdentifier=dw-backup-01&ClusterIdentifier=analytics-dw", "r3");
    assert_eq!(resp.status, 200);
    assert!(resp.body.contains("<SnapshotIdentifier>dw-backup-01</SnapshotIdentifier>"));
}

#[test]
fn redshift_nodes_are_numbered() {
    let mut state = RedshiftState::new("000000000000".to_string(), "us-east-1".to_string());
    let c = state.create_cluster("c".into(), None, None, None, Some(3), Some(true)).unwrap();
    assert_eq!(c.cluster_nodes.len(), 3);
    assert_eq!(c.cluster_nodes[0].node_role, "LEADER");
    assert_eq!(c.cluster_nodes[1].node_role, "COMPUTE");
    assert_eq!(c.cluster_nodes[2].private_ip_address, "10.0.0.12");
    assert_eq!(c.cluster_nodes[2].public_ip_address, "54.214.13.12");
    assert_eq!(c.node_type, "dc2.large");
    assert_eq!(c.master_username, "admin");
    assert_eq!(c.db_name, "dev");
    assert!(c.encrypted);
    assert_eq!(c.manual_snapshot_retention_period, -1);
    let none = state.create_cluster("d".into(), None, None, None, Some(0), None).unwrap();
    assert_eq!(none.cluster_nodes.len(), 0);
    let one = state.create_cluster("e".into(), None, None, None, None, None).unwrap();
    assert_eq!(one.cluster_nodes.len(), 1);
    assert_eq!(one.endpoint.unwrap().port, 5439);
}

#[test]
fn redshift_errors() {
    let mut state = RedshiftState::new("000000000000".to_string(), "us-east-1".to_string());
    state.create_cluster("c".into(), None, None, None, None, None).unwrap();
    let e = state.create_cluster("c".into(), None, None, None, None, None).unwrap_err();
    assert_eq!(e.message(), "ClusterAlreadyExistsFault: Cluster c already exists");
    match state.delete_cluster("x") {
        Err(RedshiftError::ClusterNotFound(id)) => assert_eq!(id, "x"),
        _ => panic!("expected not found"),
    }
    let e = state.describe_cluster_snapshots(Some("s")).unwrap_err();
    assert_eq!(e.message(), "ClusterSnapshotNotFoundFault: Snapshot s not found");
    let resp = handle_redshift_request(&mut state, None, b"Action=DescribeClusterSnapshots&SnapshotIdentifier=s", "r");
    assert_eq!(resp.status, 404);
    let resp = handle_redshift_request(&mut state, None, b"Action=Nope", "r");
    assert_eq!(resp.status, 400);
    assert!(resp.body.contains("Unknown Action: Nope"));
}

#[test]
fn redshift_delete_and_snapshot_listing() {
    let mut state = RedshiftState::new("000000000000".to_string(), "us-east-1".to_string());
    state.create_cluster("c".into(), None, None, Some("db".into()), Some(2), None).unwrap();
    let sn = state.create_cluster_snapshot("s1".into(), "c".into()).unwrap();
    assert_eq!(sn.number_of_nodes, 2);
    assert_eq!(sn.db_name, "db");
    let resp = handle_redshift_request(&mut state, None, b"Action=DescribeClusterSnapshots", "r");
    assert_eq!(resp.status, 200);
    assert!(resp.body.contains("<Snapshot>\n  <SnapshotIdentifier>s1</SnapshotIdentifier>"));
    let deleted = state.delete_cluster("c").unwrap();
    assert_eq!(deleted.cluster_status, "deleting");
    assert!(state.describe_clusters(Some("c")).is_err());
    let snap = state.export_snapshot();
    let mut other = RedshiftState::new("000000000000".to_string(), "us-east-1".to_string());
    other.import_snapshot(snap);
    assert_eq!(other.describe_cluster_snapshots(None).unwrap().len(), 1);
    assert_eq!(other.describe_clusters(None).unwrap().len(), 0);
}
