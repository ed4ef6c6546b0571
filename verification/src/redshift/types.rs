//! Warehouse clusters, their nodes and snapshots, and their views as text.
use vstd::prelude::*;

verus! {

/// Where a cluster can be reached.
#[derive(Debug)]
pub struct RedshiftEndpoint {
    pub address: String,
    pub port: i32,
}

/// An endpoint as text.
pub struct RedshiftEndpointView {
    pub address: Seq<char>,
    pub port: i32,
}

impl RedshiftEndpoint {
    pub open spec fn view(&self) -> RedshiftEndpointView {
        RedshiftEndpointView { address: self.address@, port: self.port }
    }

    /// A copy of the endpoint.
    pub fn copy(&self) -> (r: Self)
        ensures
            r@ == self@,
    {
        RedshiftEndpoint { address: self.address.clone(), port: self.port }
    }
}

/// One node of a cluster.
#[derive(Debug)]
pub struct ClusterNode {
    pub node_role: String,
    pub private_ip_address: String,
    pub public_ip_address: String,
}

/// A node as text.
pub struct NodeView {
    pub node_role: Seq<char>,
    pub private_ip_address: Seq<char>,
    pub public_ip_address: Seq<char>,
}

impl ClusterNode {
    pub open spec fn view(&self) -> NodeView {
        NodeView {
            node_role: self.node_role@,
            private_ip_address: self.private_ip_address@,
            public_ip_address: self.public_ip_address@,
        }
    }

    /// A copy of the node.
    pub fn copy(&self) -> (r: Self)
        ensures
            r@ == self@,
    {
        ClusterNode {
            node_role: self.node_role.clone(),
            private_ip_address: self.private_ip_address.clone(),
            public_ip_address: self.public_ip_address.clone(),
        }
    }
}

/// The views of a list of nodes.
pub open spec fn node_views(v: Seq<ClusterNode>) -> Seq<NodeView> {
    v.map_values(|n: ClusterNode| n@)
}

/// Copies of a list of nodes.
pub fn copy_nodes(v: &Vec<ClusterNode>) -> (r: Vec<ClusterNode>)
    ensures
        node_views(r@) == node_views(v@),
{
    let mut r: Vec<ClusterNode> = Vec::new();
    let mut i: usize = 0;
    while i < v.len()
        invariant
            i <= v@.len(),
            node_views(r@) == node_views(v@).subrange(0, i as int),
        decreases v@.len() - i,
    {
        let ghost before = r@;
        r.push(v[i].copy());
        assert(node_views(r@) =~= node_views(before).push(v@[i as int]@));
        assert(node_views(r@) =~= node_views(v@).subrange(0, i + 1));
        i = i + 1;
    }
    assert(node_views(v@).subrange(0, v@.len() as int) =~= node_views(v@));
    r
}

/// A warehouse cluster. `cluster_create_time` is an RFC 3339 timestamp.
#[derive(Debug)]
pub struct RedshiftCluster {
    pub cluster_identifier: String,
    pub node_type: String,
    pub cluster_status: String,
    pub cluster_availability_status: String,
    pub master_username: String,
    pub db_name: String,
    pub endpoint: Option<RedshiftEndpoint>,
    pub cluster_create_time: String,
    pub number_of_nodes: i32,
    pub cluster_nodes: Vec<ClusterNode>,
    pub automated_snapshot_retention_period: i32,
    pub manual_snapshot_retention_period: i32,
    pub encrypted: bool,
    pub enhanced_vpc_routing: bool,
}

/// A cluster as text.
pub struct RedshiftClusterView {
    pub cluster_identifier: Seq<char>,
    pub node_type: Seq<char>,
    pub cluster_status: Seq<char>,
    pub cluster_availability_status: Seq<char>,
    pub master_username: Seq<char>,
    pub db_name: Seq<char>,
    pub endpoint: Option<RedshiftEndpointView>,
    pub cluster_create_time: Seq<char>,
    pub number_of_nodes: i32,
    pub cluster_nodes: Seq<NodeView>,
    pub automated_snapshot_retention_period: i32,
    pub manual_snapshot_retention_period: i32,
    pub encrypted: bool,
    pub enhanced_vpc_routing: bool,
}

impl RedshiftCluster {
    pub open spec fn view(&self) -> RedshiftClusterView {
        RedshiftClusterView {
            cluster_identifier: self.cluster_identifier@,
            node_type: self.node_type@,
            cluster_status: self.cluster_status@,
            cluster_availability_status: self.cluster_availability_status@,
            master_username: self.master_username@,
            db_name: self.db_name@,
            endpoint: match self.endpoint {
                Some(e) => Some(e@),
                None => None,
            },
            cluster_create_time: self.cluster_create_time@,
            number_of_nodes: self.number_of_nodes,
            cluster_nodes: node_views(self.cluster_nodes@),
            automated_snapshot_retention_period: self.automated_snapshot_retention_period,
            manual_snapshot_retention_period: self.manual_snapshot_retention_period,
            encrypted: self.encrypted,
            enhanced_vpc_routing: self.enhanced_vpc_routing,
        }
    }

    /// A copy of the cluster.
    pub fn copy(&self) -> (r: Self)
        ensures
            r@ == self@,
    {
        RedshiftCluster {
            cluster_identifier: self.cluster_identifier.clone(),
            node_type: self.node_type.clone(),
            cluster_status: self.cluster_status.clone(),
            cluster_availability_status: self.cluster_availability_status.clone(),
            master_username: self.master_username.clone(),
            db_name: self.db_name.clone(),
            endpoint: match &self.endpoint {
                Some(e) => Some(e.copy()),
                None => None,
            },
            cluster_create_time: self.cluster_create_time.clone(),
            number_of_nodes: self.number_of_nodes,
            cluster_nodes: copy_nodes(&self.cluster_nodes),
            automated_snapshot_retention_period: self.automated_snapshot_retention_period,
            manual_snapshot_retention_period: self.manual_snapshot_retention_period,
            encrypted: self.encrypted,
            enhanced_vpc_routing: self.enhanced_vpc_routing,
        }
    }
}

/// A snapshot of a cluster. `snapshot_create_time` is an RFC 3339 timestamp.
#[derive(Debug)]
pub struct ClusterSnapshot {
    pub snapshot_identifier: String,
    pub cluster_identifier: String,
    pub snapshot_create_time: String,
    pub status: String,
    pub node_type: String,
    pub number_of_nodes: i32,
    pub db_name: String,
    pub master_username: String,
    pub encrypted: bool,
}

/// A snapshot as text.
pub struct ClusterSnapshotView {
    pub snapshot_identifier: Seq<char>,
    pub cluster_identifier: Seq<char>,
    pub snapshot_create_time: Seq<char>,
    pub status: Seq<char>,
    pub node_type: Seq<char>,
    pub number_of_nodes: i32,
    pub db_name: Seq<char>,
    pub master_username: Seq<char>,
    pub encrypted: bool,
}

impl ClusterSnapshot {
    pub open spec fn view(&self) -> ClusterSnapshotView {
        ClusterSnapshotView {
            snapshot_identifier: self.snapshot_identifier@,
            cluster_identifier: self.cluster_identifier@,
            snapshot_create_time: self.snapshot_create_time@,
            status: self.status@,
            node_type: self.node_type@,
            number_of_nodes: self.number_of_nodes,
            db_name: self.db_name@,
            master_username: self.master_username@,
            encrypted: self.encrypted,
        }
    }

    /// A copy of the snapshot.
    pub fn copy(&self) -> (r: Self)
        ensures
            r@ == self@,
    {
        ClusterSnapshot {
            snapshot_identifier: self.snapshot_identifier.clone(),
            cluster_identifier: self.cluster_identifier.clone(),
            snapshot_create_time: self.snapshot_create_time.clone(),
            status: self.status.clone(),
            node_type: self.node_type.clone(),
            number_of_nodes: self.number_of_nodes,
            db_name: self.db_name.clone(),
            master_username: self.master_username.clone(),
            encrypted: self.encrypted,
        }
    }
}

/// Everything the service holds, as lists.
#[derive(Debug)]
pub struct RedshiftStateSnapshot {
    pub clusters: Vec<RedshiftCluster>,
    pub snapshots: Vec<ClusterSnapshot>,
}

/// The views of a list of clusters.
pub open spec fn redshift_cluster_views(v: Seq<RedshiftCluster>) -> Seq<RedshiftClusterView> {
    v.map_values(|c: RedshiftCluster| c@)
}

/// The views of a list of snapshots.
pub open spec fn cluster_snapshot_views(v: Seq<ClusterSnapshot>) -> Seq<ClusterSnapshotView> {
    v.map_values(|s: ClusterSnapshot| s@)
}

} // verus!
