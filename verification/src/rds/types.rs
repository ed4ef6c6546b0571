//! Database instances, clusters and snapshots, and their views as text.
use vstd::prelude::*;
use crate::ses::state::{copy_opt, copy_strings, opt_text};
use crate::text::views;

verus! {

/// Where an instance can be reached.
#[derive(Debug)]
pub struct Endpoint {
    pub address: String,
    pub port: i32,
    pub hosted_zone_id: String,
}

/// An endpoint as text.
pub struct EndpointView {
    pub address: Seq<char>,
    pub port: i32,
    pub hosted_zone_id: Seq<char>,
}

impl Endpoint {
    pub open spec fn view(&self) -> EndpointView {
        EndpointView { address: self.address@, port: self.port, hosted_zone_id: self.hosted_zone_id@ }
    }

    /// A copy of the endpoint.
    pub fn copy(&self) -> (r: Self)
        ensures
            r@ == self@,
    {
        Endpoint { address: self.address.clone(), port: self.port, hosted_zone_id: self.hosted_zone_id.clone() }
    }
}

/// An optional endpoint as text.
pub open spec fn opt_endpoint(e: Option<Endpoint>) -> Option<EndpointView> {
    match e {
        Some(ep) => Some(ep@),
        None => None,
    }
}

/// A database instance. `instance_create_time` is an RFC 3339 timestamp.
#[derive(Debug)]
pub struct DBInstance {
    pub db_instance_identifier: String,
    pub db_instance_class: String,
    pub engine: String,
    pub engine_version: String,
    pub db_instance_status: String,
    pub master_username: String,
    pub db_name: Option<String>,
    pub endpoint: Option<Endpoint>,
    pub allocated_storage: i32,
    pub instance_create_time: String,
    pub vpc_security_groups: Vec<String>,
    pub db_cluster_identifier: Option<String>,
    pub multi_az: bool,
    pub storage_type: String,
    pub auto_minor_version_upgrade: bool,
}

/// An instance as text.
pub struct InstanceView {
    pub db_instance_identifier: Seq<char>,
    pub db_instance_class: Seq<char>,
    pub engine: Seq<char>,
    pub engine_version: Seq<char>,
    pub db_instance_status: Seq<char>,
    pub master_username: Seq<char>,
    pub db_name: Option<Seq<char>>,
    pub endpoint: Option<EndpointView>,
    pub allocated_storage: i32,
    pub instance_create_time: Seq<char>,
    pub vpc_security_groups: Seq<Seq<char>>,
    pub db_cluster_identifier: Option<Seq<char>>,
    pub multi_az: bool,
    pub storage_type: Seq<char>,
    pub auto_minor_version_upgrade: bool,
}

impl DBInstance {
    pub open spec fn view(&self) -> InstanceView {
        InstanceView {
            db_instance_identifier: self.db_instance_identifier@,
            db_instance_class: self.db_instance_class@,
            engine: self.engine@,
            engine_version: self.engine_version@,
            db_instance_status: self.db_instance_status@,
            master_username: self.master_username@,
            db_name: opt_text(self.db_name),
            endpoint: opt_endpoint(self.endpoint),
            allocated_storage: self.allocated_storage,
            instance_create_time: self.instance_create_time@,
            vpc_security_groups: views(self.vpc_security_groups@),
            db_cluster_identifier: opt_text(self.db_cluster_identifier),
            multi_az: self.multi_az,
            storage_type: self.storage_type@,
            auto_minor_version_upgrade: self.auto_minor_version_upgrade,
        }
    }

    /// A copy of the instance.
    pub fn copy(&self) -> (r: Self)
        ensures
            r@ == self@,
    {
        DBInstance {
            db_instance_identifier: self.db_instance_identifier.clone(),
            db_instance_class: self.db_instance_class.clone(),
            engine: self.engine.clone(),
            engine_version: self.engine_version.clone(),
            db_instance_status: self.db_instance_status.clone(),
            master_username: self.master_username.clone(),
            db_name: copy_opt(&self.db_name),
            endpoint: match &self.endpoint {
                Some(ep) => Some(ep.copy()),
                None => None,
            },
            allocated_storage: self.allocated_storage,
            instance_create_time: self.instance_create_time.clone(),
            vpc_security_groups: copy_strings(&self.vpc_security_groups),
            db_cluster_identifier: copy_opt(&self.db_cluster_identifier),
            multi_az: self.multi_az,
            storage_type: self.storage_type.clone(),
            auto_minor_version_upgrade: self.auto_minor_version_upgrade,
        }
    }
}

/// A database cluster. `cluster_create_time` is an RFC 3339 timestamp.
#[derive(Debug)]
pub struct DBCluster {
    pub db_cluster_identifier: String,
    pub engine: String,
    pub engine_version: String,
    pub status: String,
    pub master_username: String,
    pub database_name: Option<String>,
    pub endpoint: Option<String>,
    pub reader_endpoint: Option<String>,
    pub port: i32,
    pub cluster_create_time: String,
    pub multi_az: bool,
    pub members: Vec<String>,
}

/// A cluster as text.
pub struct ClusterView {
    pub db_cluster_identifier: Seq<char>,
    pub engine: Seq<char>,
    pub engine_version: Seq<char>,
    pub status: Seq<char>,
    pub master_username: Seq<char>,
    pub database_name: Option<Seq<char>>,
    pub endpoint: Option<Seq<char>>,
    pub reader_endpoint: Option<Seq<char>>,
    pub port: i32,
    pub cluster_create_time: Seq<char>,
    pub multi_az: bool,
    pub members: Seq<Seq<char>>,
}

impl DBCluster {
    pub open spec fn view(&self) -> ClusterView {
        ClusterView {
            db_cluster_identifier: self.db_cluster_identifier@,
            engine: self.engine@,
            engine_version: self.engine_version@,
            status: self.status@,
            master_username: self.master_username@,
            database_name: opt_text(self.database_name),
            endpoint: opt_text(self.endpoint),
            reader_endpoint: opt_text(self.reader_endpoint),
            port: self.port,
            cluster_create_time: self.cluster_create_time@,
            multi_az: self.multi_az,
            members: views(self.members@),
        }
    }

    /// A copy of the cluster.
    pub fn copy(&self) -> (r: Self)
        ensures
            r@ == self@,
    {
        DBCluster {
            db_cluster_identifier: self.db_cluster_identifier.clone(),
            engine: self.engine.clone(),
            engine_version: self.engine_version.clone(),
            status: self.status.clone(),
            master_username: self.master_username.clone(),
            database_name: copy_opt(&self.database_name),
            endpoint: copy_opt(&self.endpoint),
            reader_endpoint: copy_opt(&self.reader_endpoint),
            port: self.port,
            cluster_create_time: self.cluster_create_time.clone(),
            multi_az: self.multi_az,
            members: copy_strings(&self.members),
        }
    }
}

/// A snapshot of an instance. `snapshot_create_time` is an RFC 3339 timestamp.
#[derive(Debug)]
pub struct DBSnapshot {
    pub db_snapshot_identifier: String,
    pub db_instance_identifier: String,
    pub snapshot_create_time: String,
    pub engine: String,
    pub allocated_storage: i32,
    pub status: String,
    pub master_username: String,
}

/// A snapshot as text.
pub struct SnapshotView {
    pub db_snapshot_identifier: Seq<char>,
    pub db_instance_identifier: Seq<char>,
    pub snapshot_create_time: Seq<char>,
    pub engine: Seq<char>,
    pub allocated_storage: i32,
    pub status: Seq<char>,
    pub master_username: Seq<char>,
}

impl DBSnapshot {
    pub open spec fn view(&self) -> SnapshotView {
        SnapshotView {
            db_snapshot_identifier: self.db_snapshot_identifier@,
            db_instance_identifier: self.db_instance_identifier@,
            snapshot_create_time: self.snapshot_create_time@,
            engine: self.engine@,
            allocated_storage: self.allocated_storage,
            status: self.status@,
            master_username: self.master_username@,
        }
    }

    /// A copy of the snapshot.
    pub fn copy(&self) -> (r: Self)
        ensures
            r@ == self@,
    {
        DBSnapshot {
            db_snapshot_identifier: self.db_snapshot_identifier.clone(),
            db_instance_identifier: self.db_instance_identifier.clone(),
            snapshot_create_time: self.snapshot_create_time.clone(),
            engine: self.engine.clone(),
            allocated_storage: self.allocated_storage,
            status: self.status.clone(),
            master_username: self.master_username.clone(),
        }
    }
}

/// Everything the service holds, as lists.
#[derive(Debug)]
pub struct RdsStateSnapshot {
    pub instances: Vec<DBInstance>,
    pub clusters: Vec<DBCluster>,
    pub snapshots: Vec<DBSnapshot>,
}

/// The views of a list of instances.
pub open spec fn instance_views(v: Seq<DBInstance>) -> Seq<InstanceView> {
    v.map_values(|i: DBInstance| i@)
}

/// The views of a list of clusters.
pub open spec fn cluster_views(v: Seq<DBCluster>) -> Seq<ClusterView> {
    v.map_values(|c: DBCluster| c@)
}

/// The views of a list of snapshots.
pub open spec fn snapshot_views(v: Seq<DBSnapshot>) -> Seq<SnapshotView> {
    v.map_values(|s: DBSnapshot| s@)
}

} // verus!
