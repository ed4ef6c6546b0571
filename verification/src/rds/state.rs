//! The service's state: instances, clusters and snapshots by identifier.
use vstd::prelude::*;
use crate::rds::types::{
    cluster_views, instance_views, snapshot_views, ClusterView, DBCluster, DBInstance, DBSnapshot, Endpoint,
    EndpointView, InstanceView, RdsStateSnapshot, SnapshotView,
};
use crate::runtime::now_rfc3339;
use crate::ses::state::opt_text;
use crate::table::{keyed, lemma_map_values_insert, lemma_map_values_remove, Table};
use crate::text::{append, str_eq, views};

verus! {

/// What `str::to_lowercase` gives for a text: its Unicode lower case.
pub uninterp spec fn lowercase_of(s: Seq<char>) -> Seq<char>;

/// std's `str::to_lowercase`. The contract claims only that the result is
/// determined by the text (named by `lowercase_of`); the Unicode case tables
/// themselves are left unstated.
#[verifier::external_body]
pub(crate) fn lowercase(s: &str) -> (r: String)
    ensures
        r@ == lowercase_of(s@),
{
    s.to_lowercase()
}

/// Why a request failed; each variant carries the identifier or detail it names.
#[derive(Debug)]
pub enum RdsError {
    DBInstanceNotFound(String),
    DBInstanceAlreadyExists(String),
    DBClusterNotFound(String),
    DBClusterAlreadyExists(String),
    DBSnapshotNotFound(String),
    InvalidParameter(String),
}

impl RdsError {
    /// The error's text: its code, a colon and what went wrong.
    pub open spec fn message_spec(&self) -> Seq<char> {
        match self {
            RdsError::DBInstanceNotFound(s) => "DBInstanceNotFound: DBInstance "@ + s@ + " not found"@,
            RdsError::DBInstanceAlreadyExists(s) => "DBInstanceAlreadyExists: DBInstance "@ + s@ + " already exists"@,
            RdsError::DBClusterNotFound(s) => "DBClusterNotFoundFault: DBCluster "@ + s@ + " not found"@,
            RdsError::DBClusterAlreadyExists(s) => "DBClusterAlreadyExistsFault: DBCluster "@ + s@ + " already exists"@,
            RdsError::DBSnapshotNotFound(s) => "DBSnapshotNotFound: DBSnapshot "@ + s@ + " not found"@,
            RdsError::InvalidParameter(s) => "InvalidParameterValue: "@ + s@,
        }
    }

    /// The error's text.
    pub fn message(&self) -> (r: String)
        ensures
            r@ == self.message_spec(),
    {
        let mut r = String::new();
        match self {
            RdsError::DBInstanceNotFound(s) => {
                append(&mut r, "DBInstanceNotFound: DBInstance ");
                append(&mut r, s.as_str());
                append(&mut r, " not found");
            },
            RdsError::DBInstanceAlreadyExists(s) => {
                append(&mut r, "DBInstanceAlreadyExists: DBInstance ");
                append(&mut r, s.as_str());
                append(&mut r, " already exists");
            },
            RdsError::DBClusterNotFound(s) => {
                append(&mut r, "DBClusterNotFoundFault: DBCluster ");
                append(&mut r, s.as_str());
                append(&mut r, " not found");
            },
            RdsError::DBClusterAlreadyExists(s) => {
                append(&mut r, "DBClusterAlreadyExistsFault: DBCluster ");
                append(&mut r, s.as_str());
                append(&mut r, " already exists");
            },
            RdsError::DBSnapshotNotFound(s) => {
                append(&mut r, "DBSnapshotNotFound: DBSnapshot ");
                append(&mut r, s.as_str());
                append(&mut r, " not found");
            },
            RdsError::InvalidParameter(s) => {
                append(&mut r, "InvalidParameterValue: ");
                append(&mut r, s.as_str());
            },
        }
        r
    }
}

/// The port of an instance, by its engine in lower case.
pub open spec fn instance_port_spec(engine_lower: Seq<char>) -> i32 {
    if engine_lower == "postgres"@ || engine_lower == "aurora-postgresql"@ {
        5432
    } else if engine_lower == "mysql"@ || engine_lower == "aurora-mysql"@ || engine_lower == "mariadb"@ {
        3306
    } else if engine_lower == "oracle"@ {
        1521
    } else if engine_lower == "sqlserver"@ {
        1433
    } else {
        5432
    }
}

/// The port of an instance, by its engine in lower case: 5432 for PostgreSQL,
/// 3306 for MySQL and MariaDB, 1521 for Oracle, 1433 for SQL Server, else 5432.
pub fn instance_port(engine_lower: &str) -> (p: i32)
    ensures
        p == instance_port_spec(engine_lower@),
{
    if str_eq(engine_lower, "postgres") || str_eq(engine_lower, "aurora-postgresql") {
        5432
    } else if str_eq(engine_lower, "mysql") || str_eq(engine_lower, "aurora-mysql") || str_eq(engine_lower, "mariadb") {
        3306
    } else if str_eq(engine_lower, "oracle") {
        1521
    } else if str_eq(engine_lower, "sqlserver") {
        1433
    } else {
        5432
    }
}

/// The port of a cluster, by its engine in lower case.
pub open spec fn cluster_port_spec(engine_lower: Seq<char>) -> i32 {
    if engine_lower == "postgres"@ || engine_lower == "aurora-postgresql"@ { 5432 } else { 3306 }
}

/// The port of a cluster, by its engine in lower case: 5432 for PostgreSQL,
/// else 3306.
pub fn cluster_port(engine_lower: &str) -> (p: i32)
    ensures
        p == cluster_port_spec(engine_lower@),
{
    if str_eq(engine_lower, "postgres") || str_eq(engine_lower, "aurora-postgresql") { 5432 } else { 3306 }
}

/// The text of an optional string, or a default.
pub open spec fn text_or(o: Option<Seq<char>>, d: Seq<char>) -> Seq<char> {
    match o {
        Some(s) => s,
        None => d,
    }
}

/// The host name of an instance.
pub open spec fn instance_address(id: Seq<char>, region: Seq<char>) -> Seq<char> {
    id + "."@ + region + ".rds.localhost.localstack.cloud"@
}

/// The writer endpoint of a cluster.
pub open spec fn cluster_endpoint(id: Seq<char>, region: Seq<char>) -> Seq<char> {
    id + ".cluster-"@ + region + ".rds.localhost.localstack.cloud"@
}

/// The reader endpoint of a cluster.
pub open spec fn cluster_reader_endpoint(id: Seq<char>, region: Seq<char>) -> Seq<char> {
    id + ".cluster-ro-"@ + region + ".rds.localhost.localstack.cloud"@
}

/// A new instance, as created at `time`: available, version 15.4 and 20 GB
/// unless given, in the default security group, single-AZ, on gp2 storage.
pub open spec fn created_instance(
    id: Seq<char>,
    class: Seq<char>,
    engine: Seq<char>,
    version: Option<Seq<char>>,
    master: Seq<char>,
    db_name: Option<Seq<char>>,
    storage: Option<i32>,
    cluster: Option<Seq<char>>,
    region: Seq<char>,
    time: Seq<char>,
) -> InstanceView {
    InstanceView {
        db_instance_identifier: id,
        db_instance_class: class,
        engine: engine,
        engine_version: text_or(version, "15.4"@),
        db_instance_status: "available"@,
        master_username: master,
        db_name: db_name,
        endpoint: Some(EndpointView {
            address: instance_address(id, region),
            port: instance_port_spec(lowercase_of(engine)),
            hosted_zone_id: "Z2YGUSBFPMUBSH"@,
        }),
        allocated_storage: match storage {
            Some(a) => a,
            None => 20,
        },
        instance_create_time: time,
        vpc_security_groups: seq!["sg-default"@],
        db_cluster_identifier: cluster,
        multi_az: false,
        storage_type: "gp2"@,
        auto_minor_version_upgrade: true,
    }
}

/// A new cluster, as created at `time`: available, multi-AZ, with no members.
pub open spec fn created_cluster(
    id: Seq<char>,
    engine: Seq<char>,
    version: Option<Seq<char>>,
    master: Seq<char>,
    database_name: Option<Seq<char>>,
    region: Seq<char>,
    time: Seq<char>,
) -> ClusterView {
    ClusterView {
        db_cluster_identifier: id,
        engine: engine,
        engine_version: text_or(version, "15.4"@),
        status: "available"@,
        master_username: master,
        database_name: database_name,
        endpoint: Some(cluster_endpoint(id, region)),
        reader_endpoint: Some(cluster_reader_endpoint(id, region)),
        port: cluster_port_spec(lowercase_of(engine)),
        cluster_create_time: time,
        multi_az: true,
        members: Seq::empty(),
    }
}

/// A snapshot of `inst`, taken at `time`.
pub open spec fn taken_snapshot(snapshot_id: Seq<char>, inst: InstanceView, time: Seq<char>) -> SnapshotView {
    SnapshotView {
        db_snapshot_identifier: snapshot_id,
        db_instance_identifier: inst.db_instance_identifier,
        snapshot_create_time: time,
        engine: inst.engine,
        allocated_storage: inst.allocated_storage,
        status: "available"@,
        master_username: inst.master_username,
    }
}

/// The instances of a list, each put under its identifier in order.
pub open spec fn imported_instances(v: Seq<InstanceView>) -> Map<Seq<char>, InstanceView> {
    keyed(v, |i: InstanceView| i.db_instance_identifier)
}

/// The clusters of a list, each put under its identifier in order.
pub open spec fn imported_clusters(v: Seq<ClusterView>) -> Map<Seq<char>, ClusterView> {
    keyed(v, |c: ClusterView| c.db_cluster_identifier)
}

/// The snapshots of a list, each put under its identifier in order.
pub open spec fn imported_snapshots(v: Seq<SnapshotView>) -> Map<Seq<char>, SnapshotView> {
    keyed(v, |s: SnapshotView| s.db_snapshot_identifier)
}

/// An optional borrowed text, as text.
pub open spec fn str_opt(o: Option<&str>) -> Option<Seq<char>> {
    match o {
        Some(s) => Some(s@),
        None => None,
    }
}

/// What creating an instance did: refused an identifier in use, changing
/// nothing, or stored the new instance under its identifier.
pub open spec fn instance_created(
    s0: RdsState,
    s1: RdsState,
    id: Seq<char>,
    class: Seq<char>,
    engine: Seq<char>,
    version: Option<Seq<char>>,
    master: Seq<char>,
    db_name: Option<Seq<char>>,
    storage: Option<i32>,
    cluster: Option<Seq<char>>,
    r: Result<DBInstance, RdsError>,
) -> bool {
    &&& s1.same_but_instances(&s0)
    &&& match r {
        Err(e) => {
            &&& s0.instances().contains_key(id)
            &&& (e matches RdsError::DBInstanceAlreadyExists(x) && x@ == id)
            &&& s1.instances() == s0.instances()
            &&& s1.instance_ids() == s0.instance_ids()
        },
        Ok(inst) => {
            &&& !s0.instances().contains_key(id)
            &&& inst@ == created_instance(id, class, engine, version, master, db_name, storage, cluster, s0.home_region(), inst.instance_create_time@)
            &&& s1.instances() == s0.instances().insert(id, inst@)
        },
    }
}

/// What deleting an instance did: refused an unknown identifier, changing
/// nothing, or removed the instance and answered it with status `deleting`.
pub open spec fn instance_deleted(s0: RdsState, s1: RdsState, id: Seq<char>, r: Result<DBInstance, RdsError>) -> bool {
    &&& s1.same_but_instances(&s0)
    &&& match r {
        Err(e) => {
            &&& !s0.instances().contains_key(id)
            &&& (e matches RdsError::DBInstanceNotFound(x) && x@ == id)
            &&& s1.instances() == s0.instances()
            &&& s1.instance_ids() == s0.instance_ids()
        },
        Ok(inst) => {
            &&& s0.instances().contains_key(id)
            &&& inst@ == InstanceView { db_instance_status: "deleting"@, ..s0.instances()[id] }
            &&& s1.instances() == s0.instances().remove(id)
        },
    }
}

/// What creating a cluster did: refused an identifier in use, changing
/// nothing, or stored the new cluster under its identifier.
pub open spec fn cluster_created(
    s0: RdsState,
    s1: RdsState,
    id: Seq<char>,
    engine: Seq<char>,
    version: Option<Seq<char>>,
    master: Seq<char>,
    database_name: Option<Seq<char>>,
    r: Result<DBCluster, RdsError>,
) -> bool {
    &&& s1.same_but_clusters(&s0)
    &&& match r {
        Err(e) => {
            &&& s0.clusters().contains_key(id)
            &&& (e matches RdsError::DBClusterAlreadyExists(x) && x@ == id)
            &&& s1.clusters() == s0.clusters()
            &&& s1.cluster_ids() == s0.cluster_ids()
        },
        Ok(c) => {
            &&& !s0.clusters().contains_key(id)
            &&& c@ == created_cluster(id, engine, version, master, database_name, s0.home_region(), c.cluster_create_time@)
            &&& s1.clusters() == s0.clusters().insert(id, c@)
        },
    }
}

/// What taking a snapshot did: refused an unknown instance, changing nothing,
/// or stored (replacing any of that identifier) a snapshot of the instance.
pub open spec fn snapshot_taken(
    s0: RdsState,
    s1: RdsState,
    snapshot_id: Seq<char>,
    instance_id: Seq<char>,
    r: Result<DBSnapshot, RdsError>,
) -> bool {
    &&& s1.same_but_snapshots(&s0)
    &&& match r {
        Err(e) => {
            &&& !s0.instances().contains_key(instance_id)
            &&& (e matches RdsError::DBInstanceNotFound(x) && x@ == instance_id)
            &&& s1.snapshots() == s0.snapshots()
            &&& s1.snapshot_ids() == s0.snapshot_ids()
        },
        Ok(sn) => {
            &&& s0.instances().contains_key(instance_id)
            &&& sn@ == taken_snapshot(snapshot_id, s0.instances()[instance_id], sn.snapshot_create_time@)
            &&& s1.snapshots() == s0.snapshots().insert(snapshot_id, sn@)
        },
    }
}

/// The service's state for one account and region.
pub struct RdsState {
    account_id: String,
    region: String,
    instances: Table<DBInstance>,
    clusters: Table<DBCluster>,
    snapshots: Table<DBSnapshot>,
}

impl RdsState {
    /// The instances, by identifier.
    pub closed spec fn instances(&self) -> Map<Seq<char>, InstanceView> {
        self.instances@.map_values(|i: DBInstance| i@)
    }

    /// The instance identifiers, in ascending order.
    pub closed spec fn instance_ids(&self) -> Seq<Seq<char>> {
        self.instances.keys()
    }

    /// The clusters, by identifier.
    pub closed spec fn clusters(&self) -> Map<Seq<char>, ClusterView> {
        self.clusters@.map_values(|c: DBCluster| c@)
    }

    /// The cluster identifiers, in ascending order.
    pub closed spec fn cluster_ids(&self) -> Seq<Seq<char>> {
        self.clusters.keys()
    }

    /// The snapshots, by identifier.
    pub closed spec fn snapshots(&self) -> Map<Seq<char>, SnapshotView> {
        self.snapshots@.map_values(|s: DBSnapshot| s@)
    }

    /// The snapshot identifiers, in ascending order.
    pub closed spec fn snapshot_ids(&self) -> Seq<Seq<char>> {
        self.snapshots.keys()
    }

    /// The account the state answers for.
    pub closed spec fn account(&self) -> Seq<char> {
        self.account_id@
    }

    /// The region the state answers for.
    pub closed spec fn home_region(&self) -> Seq<char> {
        self.region@
    }

    /// The tables are well formed and each entry is stored under its own
    /// identifier.
    pub closed spec fn wf(&self) -> bool {
        &&& self.instances.wf()
        &&& self.clusters.wf()
        &&& self.snapshots.wf()
        &&& forall|k: Seq<char>| #[trigger] self.instances@.contains_key(k) ==> self.instances@[k].db_instance_identifier@ == k
        &&& forall|k: Seq<char>| #[trigger] self.clusters@.contains_key(k) ==> self.clusters@[k].db_cluster_identifier@ == k
        &&& forall|k: Seq<char>| #[trigger] self.snapshots@.contains_key(k) ==> self.snapshots@[k].db_snapshot_identifier@ == k
    }

    /// The instances in identifier order.
    pub open spec fn instance_list(&self) -> Seq<InstanceView> {
        Seq::new(self.instance_ids().len(), |i: int| self.instances()[self.instance_ids()[i]])
    }

    /// The clusters in identifier order.
    pub open spec fn cluster_list(&self) -> Seq<ClusterView> {
        Seq::new(self.cluster_ids().len(), |i: int| self.clusters()[self.cluster_ids()[i]])
    }

    /// The snapshots in identifier order.
    pub open spec fn snapshot_list(&self) -> Seq<SnapshotView> {
        Seq::new(self.snapshot_ids().len(), |i: int| self.snapshots()[self.snapshot_ids()[i]])
    }

    /// What describing instances finds: the one named (none when it does not
    /// exist), or all of them in identifier order.
    pub open spec fn described_instances(&self, id: Option<Seq<char>>) -> Option<Seq<InstanceView>> {
        match id {
            Some(i) => if self.instances().contains_key(i) { Some(seq![self.instances()[i]]) } else { None },
            None => Some(self.instance_list()),
        }
    }

    /// What describing clusters finds: the one named (none when it does not
    /// exist), or all of them in identifier order.
    pub open spec fn described_clusters(&self, id: Option<Seq<char>>) -> Option<Seq<ClusterView>> {
        match id {
            Some(i) => if self.clusters().contains_key(i) { Some(seq![self.clusters()[i]]) } else { None },
            None => Some(self.cluster_list()),
        }
    }

    /// The account, region and clusters and snapshots are as in `other`.
    pub open spec fn same_but_instances(&self, other: &Self) -> bool {
        &&& self.account() == other.account()
        &&& self.home_region() == other.home_region()
        &&& self.clusters() == other.clusters()
        &&& self.cluster_ids() == other.cluster_ids()
        &&& self.snapshots() == other.snapshots()
        &&& self.snapshot_ids() == other.snapshot_ids()
    }

    /// The account, region and instances and snapshots are as in `other`.
    pub open spec fn same_but_clusters(&self, other: &Self) -> bool {
        &&& self.account() == other.account()
        &&& self.home_region() == other.home_region()
        &&& self.instances() == other.instances()
        &&& self.instance_ids() == other.instance_ids()
        &&& self.snapshots() == other.snapshots()
        &&& self.snapshot_ids() == other.snapshot_ids()
    }

    /// The account, region and instances and clusters are as in `other`.
    pub open spec fn same_but_snapshots(&self, other: &Self) -> bool {
        &&& self.account() == other.account()
        &&& self.home_region() == other.home_region()
        &&& self.instances() == other.instances()
        &&& self.instance_ids() == other.instance_ids()
        &&& self.clusters() == other.clusters()
        &&& self.cluster_ids() == other.cluster_ids()
    }

    /// The identifiers are keys, each leading to an entry with that identifier.
    pub proof fn lemma_lists(&self)
        requires
            self.wf(),
        ensures
            forall|i: int| 0 <= i < self.instance_ids().len() ==> #[trigger] self.instances().contains_key(self.instance_ids()[i]),
            forall|i: int| 0 <= i < self.cluster_ids().len() ==> #[trigger] self.clusters().contains_key(self.cluster_ids()[i]),
            forall|i: int| 0 <= i < self.snapshot_ids().len() ==> #[trigger] self.snapshots().contains_key(self.snapshot_ids()[i]),
            forall|k: Seq<char>| #[trigger] self.instances().contains_key(k) ==> self.instances()[k].db_instance_identifier == k,
            forall|k: Seq<char>| #[trigger] self.clusters().contains_key(k) ==> self.clusters()[k].db_cluster_identifier == k,
            forall|k: Seq<char>| #[trigger] self.snapshots().contains_key(k) ==> self.snapshots()[k].db_snapshot_identifier == k,
    {
        self.instances.lemma_wf();
        self.clusters.lemma_wf();
        self.snapshots.lemma_wf();
        assert forall|k: Seq<char>| #[trigger] self.instances().contains_key(k) implies self.instances()[k].db_instance_identifier == k by {
            assert(self.instances@.contains_key(k));
        }
        assert forall|k: Seq<char>| #[trigger] self.clusters().contains_key(k) implies self.clusters()[k].db_cluster_identifier == k by {
            assert(self.clusters@.contains_key(k));
        }
        assert forall|k: Seq<char>| #[trigger] self.snapshots().contains_key(k) implies self.snapshots()[k].db_snapshot_identifier == k by {
            assert(self.snapshots@.contains_key(k));
        }
    }

    /// Putting the listed entries back, each under its own identifier, gives
    /// back the maps.
    pub proof fn lemma_round_trip(&self)
        requires
            self.wf(),
        ensures
            imported_instances(self.instance_list()) == self.instances(),
            imported_clusters(self.cluster_list()) == self.clusters(),
            imported_snapshots(self.snapshot_list()) == self.snapshots(),
    {
        let fi = |i: DBInstance| i@;
        let ki = |v: InstanceView| v.db_instance_identifier;
        self.instances.lemma_keyed_view(fi, ki);
        assert(self.instances@.map_values(fi) =~= self.instances());
        assert(Seq::new(self.instances.keys().len(), |i: int| self.instances@.map_values(fi)[self.instances.keys()[i]])
            =~= self.instance_list());
        let fc = |c: DBCluster| c@;
        let kc = |v: ClusterView| v.db_cluster_identifier;
        self.clusters.lemma_keyed_view(fc, kc);
        assert(self.clusters@.map_values(fc) =~= self.clusters());
        assert(Seq::new(self.clusters.keys().len(), |i: int| self.clusters@.map_values(fc)[self.clusters.keys()[i]])
            =~= self.cluster_list());
        let fs = |s: DBSnapshot| s@;
        let ks = |v: SnapshotView| v.db_snapshot_identifier;
        self.snapshots.lemma_keyed_view(fs, ks);
        assert(self.snapshots@.map_values(fs) =~= self.snapshots());
        assert(Seq::new(self.snapshots.keys().len(), |i: int| self.snapshots@.map_values(fs)[self.snapshots.keys()[i]])
            =~= self.snapshot_list());
    }

    /// An empty state for an account and region.
    pub fn new(account_id: String, region: String) -> (s: Self)
        ensures
            s.wf(),
            s.instances() == Map::<Seq<char>, InstanceView>::empty(),
            s.clusters() == Map::<Seq<char>, ClusterView>::empty(),
            s.snapshots() == Map::<Seq<char>, SnapshotView>::empty(),
            s.account() == account_id@,
            s.home_region() == region@,
    {
        let s = RdsState { account_id, region, instances: Table::new(), clusters: Table::new(), snapshots: Table::new() };
        assert(s.instances() =~= Map::<Seq<char>, InstanceView>::empty());
        assert(s.clusters() =~= Map::<Seq<char>, ClusterView>::empty());
        assert(s.snapshots() =~= Map::<Seq<char>, SnapshotView>::empty());
        s
    }

    /// Creates an instance, refusing an identifier in use. The port follows
    /// the engine's lower case; the host name is the identifier under the
    /// region's domain.
    pub fn create_db_instance(
        &mut self,
        identifier: String,
        db_instance_class: String,
        engine: String,
        engine_version: Option<String>,
        master_username: String,
        db_name: Option<String>,
        allocated_storage: Option<i32>,
        db_cluster_identifier: Option<String>,
    ) -> (r: Result<DBInstance, RdsError>)
        requires
            old(self).wf(),
        ensures
            final(self).wf(),
            instance_created(
                *old(self),
                *final(self),
                identifier@,
                db_instance_class@,
                engine@,
                opt_text(engine_version),
                master_username@,
                opt_text(db_name),
                allocated_storage,
                opt_text(db_cluster_identifier),
                r,
            ),
    {
        let ghost s0 = *self;
        if self.instances.contains(identifier.as_str()) {
            return Err(RdsError::DBInstanceAlreadyExists(identifier));
        }
        let lower = lowercase(engine.as_str());
        let port = instance_port(lower.as_str());
        let mut address = String::new();
        append(&mut address, identifier.as_str());
        append(&mut address, ".");
        append(&mut address, self.region.as_str());
        append(&mut address, ".rds.localhost.localstack.cloud");
        let endpoint = Endpoint { address, port, hosted_zone_id: "Z2YGUSBFPMUBSH".to_owned() };
        let version = match engine_version {
            Some(v) => v,
            None => "15.4".to_owned(),
        };
        let storage: i32 = match allocated_storage {
            Some(a) => a,
            None => 20,
        };
        let groups: Vec<String> = vec!["sg-default".to_owned()];
        let inst = DBInstance {
            db_instance_identifier: identifier.clone(),
            db_instance_class,
            engine,
            engine_version: version,
            db_instance_status: "available".to_owned(),
            master_username,
            db_name,
            endpoint: Some(endpoint),
            allocated_storage: storage,
            instance_create_time: now_rfc3339(),
            vpc_security_groups: groups,
            db_cluster_identifier,
            multi_az: false,
            storage_type: "gp2".to_owned(),
            auto_minor_version_upgrade: true,
        };
        assert(views(inst.vpc_security_groups@) =~= seq!["sg-default"@]);
        let result = inst.copy();
        let ghost gi = inst;
        self.instances.insert(identifier, inst);
        proof {
            lemma_map_values_insert(s0.instances@, gi.db_instance_identifier@, gi, |i: DBInstance| i@);
        }
        Ok(result)
    }

    /// The instance named (an error when there is none), or all instances in
    /// identifier order.
    pub fn describe_db_instances(&self, identifier: Option<&str>) -> (r: Result<Vec<DBInstance>, RdsError>)
        requires
            self.wf(),
        ensures
            match r {
                Ok(v) => self.described_instances(str_opt(identifier)) == Some(instance_views(v@)),
                Err(e) => self.described_instances(str_opt(identifier)) is None
                    && (e matches RdsError::DBInstanceNotFound(x) && str_opt(identifier) == Some(x@)),
            },
    {
        match identifier {
            Some(id) => match self.instances.get(id) {
                Some(inst) => {
                    let c = inst.copy();
                    let v: Vec<DBInstance> = vec![c];
                    assert(instance_views(v@) =~= seq![self.instances()[id@]]);
                    Ok(v)
                },
                None => Err(RdsError::DBInstanceNotFound(id.to_owned())),
            },
            None => Ok(self.instance_copies()),
        }
    }

    /// Deletes an instance, answering it with status `deleting`.
    pub fn delete_db_instance(&mut self, identifier: &str) -> (r: Result<DBInstance, RdsError>)
        requires
            old(self).wf(),
        ensures
            final(self).wf(),
            instance_deleted(*old(self), *final(self), identifier@, r),
    {
        let ghost s0 = *self;
        if !self.instances.contains(identifier) {
            return Err(RdsError::DBInstanceNotFound(identifier.to_owned()));
        }
        match self.instances.remove(identifier) {
            None => Err(RdsError::DBInstanceNotFound(identifier.to_owned())),
            Some(mut inst) => {
                proof {
                    lemma_map_values_remove(s0.instances@, identifier@, |i: DBInstance| i@);
                }
                inst.db_instance_status = "deleting".to_owned();
                Ok(inst)
            },
        }
    }

    /// Creates a cluster, refusing an identifier in use.
    pub fn create_db_cluster(
        &mut self,
        identifier: String,
        engine: String,
        engine_version: Option<String>,
        master_username: String,
        database_name: Option<String>,
    ) -> (r: Result<DBCluster, RdsError>)
        requires
            old(self).wf(),
        ensures
            final(self).wf(),
            cluster_created(
                *old(self),
                *final(self),
                identifier@,
                engine@,
                opt_text(engine_version),
                master_username@,
                opt_text(database_name),
                r,
            ),
    {
        let ghost s0 = *self;
        if self.clusters.contains(identifier.as_str()) {
            return Err(RdsError::DBClusterAlreadyExists(identifier));
        }
        let lower = lowercase(engine.as_str());
        let port = cluster_port(lower.as_str());
        let mut endpoint = String::new();
        append(&mut endpoint, identifier.as_str());
        append(&mut endpoint, ".cluster-");
        append(&mut endpoint, self.region.as_str());
        append(&mut endpoint, ".rds.localhost.localstack.cloud");
        let mut reader = String::new();
        append(&mut reader, identifier.as_str());
        append(&mut reader, ".cluster-ro-");
        append(&mut reader, self.region.as_str());
        append(&mut reader, ".rds.localhost.localstack.cloud");
        let version = match engine_version {
            Some(v) => v,
            None => "15.4".to_owned(),
        };
        let members: Vec<String> = Vec::new();
        let c = DBCluster {
            db_cluster_identifier: identifier.clone(),
            engine,
            engine_version: version,
            status: "available".to_owned(),
            master_username,
            database_name,
            endpoint: Some(endpoint),
            reader_endpoint: Some(reader),
            port,
            cluster_create_time: now_rfc3339(),
            multi_az: true,
            members,
        };
        assert(views(c.members@) =~= Seq::<Seq<char>>::empty());
        let result = c.copy();
        let ghost gc = c;
        self.clusters.insert(identifier, c);
        proof {
            lemma_map_values_insert(s0.clusters@, gc.db_cluster_identifier@, gc, |c: DBCluster| c@);
        }
        Ok(result)
    }

    /// The cluster named (an error when there is none), or all clusters in
    /// identifier order.
    pub fn describe_db_clusters(&self, identifier: Option<&str>) -> (r: Result<Vec<DBCluster>, RdsError>)
        requires
            self.wf(),
        ensures
            match r {
                Ok(v) => self.described_clusters(str_opt(identifier)) == Some(cluster_views(v@)),
                Err(e) => self.described_clusters(str_opt(identifier)) is None
                    && (e matches RdsError::DBClusterNotFound(x) && str_opt(identifier) == Some(x@)),
            },
    {
        match identifier {
            Some(id) => match self.clusters.get(id) {
                Some(c) => {
                    let v: Vec<DBCluster> = vec![c.copy()];
                    assert(cluster_views(v@) =~= seq![self.clusters()[id@]]);
                    Ok(v)
                },
                None => Err(RdsError::DBClusterNotFound(id.to_owned())),
            },
            None => Ok(self.cluster_copies()),
        }
    }

    /// Takes a snapshot of an instance, stored under the snapshot identifier
    /// (replacing any snapshot there).
    pub fn create_db_snapshot(&mut self, snapshot_id: String, instance_id: String) -> (r: Result<DBSnapshot, RdsError>)
        requires
            old(self).wf(),
        ensures
            final(self).wf(),
            snapshot_taken(*old(self), *final(self), snapshot_id@, instance_id@, r),
    {
        let ghost s0 = *self;
        let sn = match self.instances.get(instance_id.as_str()) {
            None => {
                return Err(RdsError::DBInstanceNotFound(instance_id));
            },
            Some(inst) => DBSnapshot {
                db_snapshot_identifier: snapshot_id.clone(),
                db_instance_identifier: instance_id,
                snapshot_create_time: now_rfc3339(),
                engine: inst.engine.clone(),
                allocated_storage: inst.allocated_storage,
                status: "available".to_owned(),
                master_username: inst.master_username.clone(),
            },
        };
        proof {
            assert(s0.instances@.contains_key(instance_id@));
        }
        let result = sn.copy();
        let ghost gs = sn;
        self.snapshots.insert(snapshot_id, sn);
        proof {
            lemma_map_values_insert(s0.snapshots@, gs.db_snapshot_identifier@, gs, |s: DBSnapshot| s@);
        }
        Ok(result)
    }

    /// Copies of the instances, in identifier order.
    fn instance_copies(&self) -> (v: Vec<DBInstance>)
        requires
            self.wf(),
        ensures
            instance_views(v@) == self.instance_list(),
    {
        let n = self.instances.len();
        let mut v: Vec<DBInstance> = Vec::new();
        let mut i: usize = 0;
        while i < n
            invariant
                self.wf(),
                n == self.instance_ids().len(),
                i <= n,
                instance_views(v@) == self.instance_list().subrange(0, i as int),
            decreases n - i,
        {
            let (_, inst) = self.instances.entry(i);
            proof {
                self.instances.lemma_wf();
                assert(self.instances@.contains_key(self.instances.keys()[i as int]));
            }
            let ghost before = v@;
            v.push(inst.copy());
            assert(instance_views(v@) =~= instance_views(before).push(inst@));
            assert(self.instance_list()[i as int] == inst@);
            assert(instance_views(v@) =~= self.instance_list().subrange(0, i + 1));
            i = i + 1;
        }
        assert(self.instance_list().subrange(0, n as int) =~= self.instance_list());
        v
    }

    /// Copies of the clusters, in identifier order.
    fn cluster_copies(&self) -> (v: Vec<DBCluster>)
        requires
            self.wf(),
        ensures
            cluster_views(v@) == self.cluster_list(),
    {
        let n = self.clusters.len();
        let mut v: Vec<DBCluster> = Vec::new();
        let mut i: usize = 0;
        while i < n
            invariant
                self.wf(),
                n == self.cluster_ids().len(),
                i <= n,
                cluster_views(v@) == self.cluster_list().subrange(0, i as int),
            decreases n - i,
        {
            let (_, c) = self.clusters.entry(i);
            proof {
                self.clusters.lemma_wf();
                assert(self.clusters@.contains_key(self.clusters.keys()[i as int]));
            }
            let ghost before = v@;
            v.push(c.copy());
            assert(cluster_views(v@) =~= cluster_views(before).push(c@));
            assert(self.cluster_list()[i as int] == c@);
            assert(cluster_views(v@) =~= self.cluster_list().subrange(0, i + 1));
            i = i + 1;
        }
        assert(self.cluster_list().subrange(0, n as int) =~= self.cluster_list());
        v
    }

    /// Copies of the snapshots, in identifier order.
    fn snapshot_copies(&self) -> (v: Vec<DBSnapshot>)
        requires
            self.wf(),
        ensures
            snapshot_views(v@) == self.snapshot_list(),
    {
        let n = self.snapshots.len();
        let mut v: Vec<DBSnapshot> = Vec::new();
        let mut i: usize = 0;
        while i < n
            invariant
                self.wf(),
                n == self.snapshot_ids().len(),
                i <= n,
                snapshot_views(v@) == self.snapshot_list().subrange(0, i as int),
            decreases n - i,
        {
            let (_, s) = self.snapshots.entry(i);
            proof {
                self.snapshots.lemma_wf();
                assert(self.snapshots@.contains_key(self.snapshots.keys()[i as int]));
            }
            let ghost before = v@;
            v.push(s.copy());
            assert(snapshot_views(v@) =~= snapshot_views(before).push(s@));
            assert(self.snapshot_list()[i as int] == s@);
            assert(snapshot_views(v@) =~= self.snapshot_list().subrange(0, i + 1));
            i = i + 1;
        }
        assert(self.snapshot_list().subrange(0, n as int) =~= self.snapshot_list());
        v
    }

    /// Everything held, as lists in identifier order.
    pub fn export_snapshot(&self) -> (r: RdsStateSnapshot)
        requires
            self.wf(),
        ensures
            instance_views(r.instances@) == self.instance_list(),
            cluster_views(r.clusters@) == self.cluster_list(),
            snapshot_views(r.snapshots@) == self.snapshot_list(),
    {
        RdsStateSnapshot {
            instances: self.instance_copies(),
            clusters: self.cluster_copies(),
            snapshots: self.snapshot_copies(),
        }
    }

    /// Replaces everything held by the lists of `snapshot`, each entry put
    /// under its own identifier in list order (a later one replacing an
    /// earlier one of the same identifier).
    pub fn import_snapshot(&mut self, snapshot: RdsStateSnapshot)
        requires
            old(self).wf(),
        ensures
            final(self).wf(),
            final(self).instances() == imported_instances(instance_views(snapshot.instances@)),
            final(self).clusters() == imported_clusters(cluster_views(snapshot.clusters@)),
            final(self).snapshots() == imported_snapshots(snapshot_views(snapshot.snapshots@)),
            final(self).account() == old(self).account(),
            final(self).home_region() == old(self).home_region(),
    {
        self.instances.clear();
        self.clusters.clear();
        self.snapshots.clear();
        let ghost iv = instance_views(snapshot.instances@);
        let ghost cv = cluster_views(snapshot.clusters@);
        let ghost sv = snapshot_views(snapshot.snapshots@);
        assert(self.instances() =~= imported_instances(iv.subrange(0, 0)));
        let mut i: usize = 0;
        while i < snapshot.instances.len()
            invariant
                self.wf(),
                iv == instance_views(snapshot.instances@),
                i <= iv.len(),
                self.instances() == imported_instances(iv.subrange(0, i as int)),
                self.clusters() == Map::<Seq<char>, ClusterView>::empty(),
                self.snapshots() == Map::<Seq<char>, SnapshotView>::empty(),
                self.account() == old(self).account(),
                self.home_region() == old(self).home_region(),
            decreases iv.len() - i,
        {
            let inst = snapshot.instances[i].copy();
            let ghost gi = inst;
            let ghost m0 = self.instances@;
            self.instances.insert(inst.db_instance_identifier.clone(), inst);
            proof {
                lemma_map_values_insert(m0, gi.db_instance_identifier@, gi, |x: DBInstance| x@);
                assert(iv.subrange(0, i + 1).drop_last() =~= iv.subrange(0, i as int));
                assert(iv[i as int] == gi@);
            }
            i = i + 1;
        }
        assert(iv.subrange(0, iv.len() as int) =~= iv);
        assert(self.clusters() =~= imported_clusters(cv.subrange(0, 0)));
        let mut j: usize = 0;
        while j < snapshot.clusters.len()
            invariant
                self.wf(),
                cv == cluster_views(snapshot.clusters@),
                j <= cv.len(),
                self.instances() == imported_instances(iv),
                self.clusters() == imported_clusters(cv.subrange(0, j as int)),
                self.snapshots() == Map::<Seq<char>, SnapshotView>::empty(),
                self.account() == old(self).account(),
                self.home_region() == old(self).home_region(),
            decreases cv.len() - j,
        {
            let c = snapshot.clusters[j].copy();
            let ghost gc = c;
            let ghost m0 = self.clusters@;
            self.clusters.insert(c.db_cluster_identifier.clone(), c);
            proof {
                lemma_map_values_insert(m0, gc.db_cluster_identifier@, gc, |x: DBCluster| x@);
                assert(cv.subrange(0, j + 1).drop_last() =~= cv.subrange(0, j as int));
                assert(cv[j as int] == gc@);
            }
            j = j + 1;
        }
        assert(cv.subrange(0, cv.len() as int) =~= cv);
        assert(self.snapshots() =~= imported_snapshots(sv.subrange(0, 0)));
        let mut k: usize = 0;
        while k < snapshot.snapshots.len()
            invariant
                self.wf(),
                sv == snapshot_views(snapshot.snapshots@),
                k <= sv.len(),
                self.instances() == imported_instances(iv),
                self.clusters() == imported_clusters(cv),
                self.snapshots() == imported_snapshots(sv.subrange(0, k as int)),
                self.account() == old(self).account(),
                self.home_region() == old(self).home_region(),
            decreases sv.len() - k,
        {
            let s = snapshot.snapshots[k].copy();
            let ghost gs = s;
            let ghost m0 = self.snapshots@;
            self.snapshots.insert(s.db_snapshot_identifier.clone(), s);
            proof {
                lemma_map_values_insert(m0, gs.db_snapshot_identifier@, gs, |x: DBSnapshot| x@);
                assert(sv.subrange(0, k + 1).drop_last() =~= sv.subrange(0, k as int));
                assert(sv[k as int] == gs@);
            }
            k = k + 1;
        }
        assert(sv.subrange(0, sv.len() as int) =~= sv);
    }

    /// Removes every instance, cluster and snapshot.
    pub fn reset(&mut self)
        requires
            old(self).wf(),
        ensures
            final(self).wf(),
            final(self).instances() == Map::<Seq<char>, InstanceView>::empty(),
            final(self).clusters() == Map::<Seq<char>, ClusterView>::empty(),
            final(self).snapshots() == Map::<Seq<char>, SnapshotView>::empty(),
            final(self).account() == old(self).account(),
            final(self).home_region() == old(self).home_region(),
    {
        self.instances.clear();
        self.clusters.clear();
        self.snapshots.clear();
        assert(self.instances() =~= Map::<Seq<char>, InstanceView>::empty());
        assert(self.clusters() =~= Map::<Seq<char>, ClusterView>::empty());
        assert(self.snapshots() =~= Map::<Seq<char>, SnapshotView>::empty());
    }

    /// The account the state answers for.
    pub fn account_id(&self) -> (r: &str)
        ensures
            r@ == self.account(),
    {
        self.account_id.as_str()
    }

    /// The region the state answers for.
    pub fn region(&self) -> (r: &str)
        ensures
            r@ == self.home_region(),
    {
        self.region.as_str()
    }
}

/// Restoring what was exported gives back the same instances, clusters and
/// snapshots.
pub proof fn law_snapshot_round_trip(s0: RdsState, snap: RdsStateSnapshot, s1: RdsState)
    requires
        s0.wf(),
        instance_views(snap.instances@) == s0.instance_list(),
        cluster_views(snap.clusters@) == s0.cluster_list(),
        snapshot_views(snap.snapshots@) == s0.snapshot_list(),
        s1.instances() == imported_instances(instance_views(snap.instances@)),
        s1.clusters() == imported_clusters(cluster_views(snap.clusters@)),
        s1.snapshots() == imported_snapshots(snapshot_views(snap.snapshots@)),
    ensures
        s1.instances() == s0.instances(),
        s1.clusters() == s0.clusters(),
        s1.snapshots() == s0.snapshots(),
{
    s0.lemma_round_trip();
}

/// An instance that was created is what describing its identifier finds.
pub proof fn law_created_instance_described(
    s0: RdsState,
    s1: RdsState,
    id: Seq<char>,
    class: Seq<char>,
    engine: Seq<char>,
    version: Option<Seq<char>>,
    master: Seq<char>,
    db_name: Option<Seq<char>>,
    storage: Option<i32>,
    cluster: Option<Seq<char>>,
    inst: DBInstance,
)
    requires
        instance_created(s0, s1, id, class, engine, version, master, db_name, storage, cluster, Ok(inst)),
    ensures
        s1.described_instances(Some(id)) == Some(seq![inst@]),
        inst@.db_instance_identifier == id,
{
}

/// A deleted instance is no longer found.
pub proof fn law_deleted_instance_not_found(s0: RdsState, s1: RdsState, id: Seq<char>, inst: DBInstance)
    requires
        instance_deleted(s0, s1, id, Ok(inst)),
    ensures
        s1.described_instances(Some(id)) is None,
{
}

/// A second creation under an identifier in use is refused and changes nothing.
pub proof fn law_duplicate_instance_refused(
    s0: RdsState,
    s1: RdsState,
    id: Seq<char>,
    class: Seq<char>,
    engine: Seq<char>,
    version: Option<Seq<char>>,
    master: Seq<char>,
    db_name: Option<Seq<char>>,
    storage: Option<i32>,
    cluster: Option<Seq<char>>,
    r: Result<DBInstance, RdsError>,
)
    requires
        s0.instances().contains_key(id),
        instance_created(s0, s1, id, class, engine, version, master, db_name, storage, cluster, r),
    ensures
        r is Err,
        s1.instances() == s0.instances(),
        s1.clusters() == s0.clusters(),
        s1.snapshots() == s0.snapshots(),
{
}

} // verus!
