//! The service's state: clusters and snapshots by identifier.
use vstd::prelude::*;
use crate::rds::state::{str_opt, text_or};
use crate::redshift::types::{
    cluster_snapshot_views, node_views, redshift_cluster_views, ClusterNode, ClusterSnapshot, ClusterSnapshotView,
    NodeView, RedshiftCluster, RedshiftClusterView, RedshiftEndpoint, RedshiftEndpointView, RedshiftStateSnapshot,
};
use crate::runtime::now_rfc3339;
use crate::ses::state::opt_text;
use crate::table::{keyed, lemma_map_values_insert, lemma_map_values_remove, Table};
use crate::text::{append, append_i64, decimal};

verus! {

/// Why a request failed; each variant carries the identifier or detail it names.
#[derive(Debug)]
pub enum RedshiftError {
    ClusterNotFound(String),
    ClusterAlreadyExists(String),
    SnapshotNotFound(String),
    InvalidParameter(String),
}

impl RedshiftError {
    /// The error's text: its code, a colon and what went wrong.
    pub open spec fn message_spec(&self) -> Seq<char> {
        match self {
            RedshiftError::ClusterNotFound(s) => "ClusterNotFoundFault: Cluster "@ + s@ + " not found"@,
            RedshiftError::ClusterAlreadyExists(s) => "ClusterAlreadyExistsFault: Cluster "@ + s@ + " already exists"@,
            RedshiftError::SnapshotNotFound(s) => "ClusterSnapshotNotFoundFault: Snapshot "@ + s@ + " not found"@,
            RedshiftError::InvalidParameter(s) => "InvalidParameterValue: "@ + s@,
        }
    }

    /// The error's text.
    pub fn message(&self) -> (r: String)
        ensures
            r@ == self.message_spec(),
    {
        let mut r = String::new();
        match self {
            RedshiftError::ClusterNotFound(s) => {
                append(&mut r, "ClusterNotFoundFault: Cluster ");
                append(&mut r, s.as_str());
                append(&mut r, " not found");
            },
            RedshiftError::ClusterAlreadyExists(s) => {
                append(&mut r, "ClusterAlreadyExistsFault: Cluster ");
                append(&mut r, s.as_str());
                append(&mut r, " already exists");
            },
            RedshiftError::SnapshotNotFound(s) => {
                append(&mut r, "ClusterSnapshotNotFoundFault: Snapshot ");
                append(&mut r, s.as_str());
                append(&mut r, " not found");
            },
            RedshiftError::InvalidParameter(s) => {
                append(&mut r, "InvalidParameterValue: ");
                append(&mut r, s.as_str());
            },
        }
        r
    }
}

/// The nodes of a new cluster of `n` nodes (none when `n` is not positive):
/// the first is the leader, the others compute nodes; node `i` has the
/// addresses ending in `10 + i`.
pub open spec fn created_nodes(n: int) -> Seq<NodeView> {
    Seq::new(
        if n > 0 { n as nat } else { 0 },
        |i: int| NodeView {
            node_role: if i == 0 { "LEADER"@ } else { "COMPUTE"@ },
            private_ip_address: "10.0.0."@ + decimal((10 + i) as nat),
            public_ip_address: "54.214.13."@ + decimal((10 + i) as nat),
        },
    )
}

/// The host name of a cluster.
pub open spec fn cluster_address(id: Seq<char>, region: Seq<char>) -> Seq<char> {
    id + "."@ + region + ".redshift.localhost.localstack.cloud"@
}

/// A new cluster, as created at `time`: available, on port 5439, with one
/// node, `dc2.large`, user `admin`, database `dev` and no encryption unless
/// given.
pub open spec fn created_cluster(
    id: Seq<char>,
    node_type: Option<Seq<char>>,
    master: Option<Seq<char>>,
    db_name: Option<Seq<char>>,
    nodes: Option<i32>,
    encrypted: Option<bool>,
    region: Seq<char>,
    time: Seq<char>,
) -> RedshiftClusterView {
    let n: i32 = match nodes {
        Some(k) => k,
        None => 1,
    };
    RedshiftClusterView {
        cluster_identifier: id,
        node_type: text_or(node_type, "dc2.large"@),
        cluster_status: "available"@,
        cluster_availability_status: "Available"@,
        master_username: text_or(master, "admin"@),
        db_name: text_or(db_name, "dev"@),
        endpoint: Some(RedshiftEndpointView { address: cluster_address(id, region), port: 5439 }),
        cluster_create_time: time,
        number_of_nodes: n,
        cluster_nodes: created_nodes(n as int),
        automated_snapshot_retention_period: 1,
        manual_snapshot_retention_period: -1i32,
        encrypted: match encrypted {
            Some(b) => b,
            None => false,
        },
        enhanced_vpc_routing: false,
    }
}

/// A snapshot of cluster `c`, taken at `time`.
pub open spec fn taken_cluster_snapshot(snapshot_id: Seq<char>, c: RedshiftClusterView, time: Seq<char>) -> ClusterSnapshotView {
    ClusterSnapshotView {
        snapshot_identifier: snapshot_id,
        cluster_identifier: c.cluster_identifier,
        snapshot_create_time: time,
        status: "available"@,
        node_type: c.node_type,
        number_of_nodes: c.number_of_nodes,
        db_name: c.db_name,
        master_username: c.master_username,
        encrypted: c.encrypted,
    }
}

/// The clusters of a list, each put under its identifier in order.
pub open spec fn imported_redshift_clusters(v: Seq<RedshiftClusterView>) -> Map<Seq<char>, RedshiftClusterView> {
    keyed(v, |c: RedshiftClusterView| c.cluster_identifier)
}

/// The snapshots of a list, each put under its identifier in order.
pub open spec fn imported_cluster_snapshots(v: Seq<ClusterSnapshotView>) -> Map<Seq<char>, ClusterSnapshotView> {
    keyed(v, |s: ClusterSnapshotView| s.snapshot_identifier)
}

/// What creating a cluster did: refused an identifier in use, changing
/// nothing, or stored the new cluster under its identifier.
pub open spec fn redshift_cluster_created(
    s0: RedshiftState,
    s1: RedshiftState,
    id: Seq<char>,
    node_type: Option<Seq<char>>,
    master: Option<Seq<char>>,
    db_name: Option<Seq<char>>,
    nodes: Option<i32>,
    encrypted: Option<bool>,
    r: Result<RedshiftCluster, RedshiftError>,
) -> bool {
    &&& s1.same_but_clusters(&s0)
    &&& match r {
        Err(e) => {
            &&& s0.clusters().contains_key(id)
            &&& (e matches RedshiftError::ClusterAlreadyExists(x) && x@ == id)
            &&& s1.clusters() == s0.clusters()
            &&& s1.cluster_ids() == s0.cluster_ids()
        },
        Ok(c) => {
            &&& !s0.clusters().contains_key(id)
            &&& c@ == created_cluster(id, node_type, master, db_name, nodes, encrypted, s0.home_region(), c.cluster_create_time@)
            &&& s1.clusters() == s0.clusters().insert(id, c@)
        },
    }
}

/// What deleting a cluster did: refused an unknown identifier, changing
/// nothing, or removed the cluster and answered it with status `deleting`.
pub open spec fn redshift_cluster_deleted(
    s0: RedshiftState,
    s1: RedshiftState,
    id: Seq<char>,
    r: Result<RedshiftCluster, RedshiftError>,
) -> bool {
    &&& s1.same_but_clusters(&s0)
    &&& match r {
        Err(e) => {
            &&& !s0.clusters().contains_key(id)
            &&& (e matches RedshiftError::ClusterNotFound(x) && x@ == id)
            &&& s1.clusters() == s0.clusters()
            &&& s1.cluster_ids() == s0.cluster_ids()
        },
        Ok(c) => {
            &&& s0.clusters().contains_key(id)
            &&& c@ == RedshiftClusterView { cluster_status: "deleting"@, ..s0.clusters()[id] }
            &&& s1.clusters() == s0.clusters().remove(id)
        },
    }
}

/// What taking a snapshot did: refused an unknown cluster, changing nothing,
/// or stored (replacing any of that identifier) a snapshot of the cluster.
pub open spec fn cluster_snapshot_taken(
    s0: RedshiftState,
    s1: RedshiftState,
    snapshot_id: Seq<char>,
    cluster_id: Seq<char>,
    r: Result<ClusterSnapshot, RedshiftError>,
) -> bool {
    &&& s1.same_but_snapshots(&s0)
    &&& match r {
        Err(e) => {
            &&& !s0.clusters().contains_key(cluster_id)
            &&& (e matches RedshiftError::ClusterNotFound(x) && x@ == cluster_id)
            &&& s1.snapshots() == s0.snapshots()
            &&& s1.snapshot_ids() == s0.snapshot_ids()
        },
        Ok(sn) => {
            &&& s0.clusters().contains_key(cluster_id)
            &&& sn@ == taken_cluster_snapshot(snapshot_id, s0.clusters()[cluster_id], sn.snapshot_create_time@)
            &&& s1.snapshots() == s0.snapshots().insert(snapshot_id, sn@)
        },
    }
}

/// The service's state for one account and region.
pub struct RedshiftState {
    account_id: String,
    region: String,
    clusters: Table<RedshiftCluster>,
    snapshots: Table<ClusterSnapshot>,
}

impl RedshiftState {
    /// The clusters, by identifier.
    pub closed spec fn clusters(&self) -> Map<Seq<char>, RedshiftClusterView> {
        self.clusters@.map_values(|c: RedshiftCluster| c@)
    }

    /// The cluster identifiers, in ascending order.
    pub closed spec fn cluster_ids(&self) -> Seq<Seq<char>> {
        self.clusters.keys()
    }

    /// The snapshots, by identifier.
    pub closed spec fn snapshots(&self) -> Map<Seq<char>, ClusterSnapshotView> {
        self.snapshots@.map_values(|s: ClusterSnapshot| s@)
    }

    /// The snapshot identifiers, in ascending order.
    pub closed spec fn snapshot_ids(&self) -> Seq<Seq<char>> {
        self.snapshots.keys()
    }

    /// The account the state answers for.
    pub closed spec fn account(&self) -> Seq<char> {
        self.account_id@
    }

    /// The region the state answers for.
    pub closed spec fn home_region(&self) -> Seq<char> {
        self.region@
    }

    /// The tables are well formed and each entry is stored under its own
    /// identifier.
    pub closed spec fn wf(&self) -> bool {
        &&& self.clusters.wf()
        &&& self.snapshots.wf()
        &&& forall|k: Seq<char>| #[trigger] self.clusters@.contains_key(k) ==> self.clusters@[k].cluster_identifier@ == k
        &&& forall|k: Seq<char>| #[trigger] self.snapshots@.contains_key(k) ==> self.snapshots@[k].snapshot_identifier@ == k
    }

    /// The clusters in identifier order.
    pub open spec fn cluster_list(&self) -> Seq<RedshiftClusterView> {
        Seq::new(self.cluster_ids().len(), |i: int| self.clusters()[self.cluster_ids()[i]])
    }

    /// The snapshots in identifier order.
    pub open spec fn snapshot_list(&self) -> Seq<ClusterSnapshotView> {
        Seq::new(self.snapshot_ids().len(), |i: int| self.snapshots()[self.snapshot_ids()[i]])
    }

    /// What describing clusters finds: the one named (none when it does not
    /// exist), or all of them in identifier order.
    pub open spec fn described_clusters(&self, id: Option<Seq<char>>) -> Option<Seq<RedshiftClusterView>> {
        match id {
            Some(i) => if self.clusters().contains_key(i) { Some(seq![self.clusters()[i]]) } else { None },
            None => Some(self.cluster_list()),
        }
    }

    /// What describing snapshots finds: the one named (none when it does not
    /// exist), or all of them in identifier order.
    pub open spec fn described_snapshots(&self, id: Option<Seq<char>>) -> Option<Seq<ClusterSnapshotView>> {
        match id {
            Some(i) => if self.snapshots().contains_key(i) { Some(seq![self.snapshots()[i]]) } else { None },
            None => Some(self.snapshot_list()),
        }
    }

    /// The account, region and snapshots are as in `other`.
    pub open spec fn same_but_clusters(&self, other: &Self) -> bool {
        &&& self.account() == other.account()
        &&& self.home_region() == other.home_region()
        &&& self.snapshots() == other.snapshots()
        &&& self.snapshot_ids() == other.snapshot_ids()
    }

    /// The account, region and clusters are as in `other`.
    pub open spec fn same_but_snapshots(&self, other: &Self) -> bool {
        &&& self.account() == other.account()
        &&& self.home_region() == other.home_region()
        &&& self.clusters() == other.clusters()
        &&& self.cluster_ids() == other.cluster_ids()
    }

    /// Putting the listed entries back, each under its own identifier, gives
    /// back the maps.
    pub proof fn lemma_round_trip(&self)
        requires
            self.wf(),
        ensures
            imported_redshift_clusters(self.cluster_list()) == self.clusters(),
            imported_cluster_snapshots(self.snapshot_list()) == self.snapshots(),
    {
        let fc = |c: RedshiftCluster| c@;
        let kc = |v: RedshiftClusterView| v.cluster_identifier;
        self.clusters.lemma_keyed_view(fc, kc);
        assert(self.clusters@.map_values(fc) =~= self.clusters());
        assert(Seq::new(self.clusters.keys().len(), |i: int| self.clusters@.map_values(fc)[self.clusters.keys()[i]])
            =~= self.cluster_list());
        let fs = |s: ClusterSnapshot| s@;
        let ks = |v: ClusterSnapshotView| v.snapshot_identifier;
        self.snapshots.lemma_keyed_view(fs, ks);
        assert(self.snapshots@.map_values(fs) =~= self.snapshots());
        assert(Seq::new(self.snapshots.keys().len(), |i: int| self.snapshots@.map_values(fs)[self.snapshots.keys()[i]])
            =~= self.snapshot_list());
    }

    /// An empty state for an account and region.
    pub fn new(account_id: String, region: String) -> (s: Self)
        ensures
            s.wf(),
            s.clusters() == Map::<Seq<char>, RedshiftClusterView>::empty(),
            s.snapshots() == Map::<Seq<char>, ClusterSnapshotView>::empty(),
            s.account() == account_id@,
            s.home_region() == region@,
    {
        let s = RedshiftState { account_id, region, clusters: Table::new(), snapshots: Table::new() };
        assert(s.clusters() =~= Map::<Seq<char>, RedshiftClusterView>::empty());
        assert(s.snapshots() =~= Map::<Seq<char>, ClusterSnapshotView>::empty());
        s
    }

    /// The account the state answers for.
    pub fn account_id(&self) -> (r: &str)
        ensures
            r@ == self.account(),
    {
        self.account_id.as_str()
    }

    /// The region the state answers for.
    pub fn region(&self) -> (r: &str)
        ensures
            r@ == self.home_region(),
    {
        self.region.as_str()
    }

    /// The nodes of a new cluster of `n` nodes.
    fn make_nodes(n: i32) -> (r: Vec<ClusterNode>)
        ensures
            node_views(r@) == created_nodes(n as int),
    {
        let mut nodes: Vec<ClusterNode> = Vec::new();
        let mut i: i64 = 0;
        while i < n as i64
            invariant
                0 <= i,
                i <= n || n <= 0,
                n <= 0 ==> i == 0,
                node_views(nodes@) == created_nodes(i as int),
            decreases n - i,
        {
            let role = if i == 0 { "LEADER".to_owned() } else { "COMPUTE".to_owned() };
            let mut private = String::new();
            append(&mut private, "10.0.0.");
            append_i64(&mut private, 10 + i);
            let mut public = String::new();
            append(&mut public, "54.214.13.");
            append_i64(&mut public, 10 + i);
            let ghost before = nodes@;
            nodes.push(ClusterNode { node_role: role, private_ip_address: private, public_ip_address: public });
            assert(crate::text::signed_decimal((10 + i) as int) == decimal((10 + i) as nat));
            assert(node_views(nodes@) =~= node_views(before).push(created_nodes(i + 1)[i as int]));
            assert(node_views(before) =~= created_nodes(i + 1).drop_last());
            assert(node_views(nodes@) =~= created_nodes(i + 1));
            i = i + 1;
        }
        nodes
    }

    /// Creates a cluster, refusing an identifier in use.
    pub fn create_cluster(
        &mut self,
        identifier: String,
        node_type: Option<String>,
        master_username: Option<String>,
        db_name: Option<String>,
        number_of_nodes: Option<i32>,
        encrypted: Option<bool>,
    ) -> (r: Result<RedshiftCluster, RedshiftError>)
        requires
            old(self).wf(),
        ensures
            final(self).wf(),
            redshift_cluster_created(
                *old(self),
                *final(self),
                identifier@,
                opt_text(node_type),
                opt_text(master_username),
                opt_text(db_name),
                number_of_nodes,
                encrypted,
                r,
            ),
    {
        let ghost s0 = *self;
        if self.clusters.contains(identifier.as_str()) {
            return Err(RedshiftError::ClusterAlreadyExists(identifier));
        }
        let n: i32 = match number_of_nodes {
            Some(k) => k,
            None => 1,
        };
        let mut address = String::new();
        append(&mut address, identifier.as_str());
        append(&mut address, ".");
        append(&mut address, self.region.as_str());
        append(&mut address, ".redshift.localhost.localstack.cloud");
        let c = RedshiftCluster {
            cluster_identifier: identifier.clone(),
            node_type: match node_type {
                Some(t) => t,
                None => "dc2.large".to_owned(),
            },
            cluster_status: "available".to_owned(),
            cluster_availability_status: "Available".to_owned(),
            master_username: match master_username {
                Some(m) => m,
                None => "admin".to_owned(),
            },
            db_name: match db_name {
                Some(d) => d,
                None => "dev".to_owned(),
            },
            endpoint: Some(RedshiftEndpoint { address, port: 5439 }),
            cluster_create_time: now_rfc3339(),
            number_of_nodes: n,
            cluster_nodes: Self::make_nodes(n),
            automated_snapshot_retention_period: 1,
            manual_snapshot_retention_period: -1,
            encrypted: match encrypted {
                Some(b) => b,
                None => false,
            },
            enhanced_vpc_routing: false,
        };
        let result = c.copy();
        let ghost gc = c;
        self.clusters.insert(identifier, c);
        proof {
            lemma_map_values_insert(s0.clusters@, gc.cluster_identifier@, gc, |c: RedshiftCluster| c@);
        }
        Ok(result)
    }

    /// Copies of the clusters, in identifier order.
    fn cluster_copies(&self) -> (v: Vec<RedshiftCluster>)
        requires
            self.wf(),
        ensures
            redshift_cluster_views(v@) == self.cluster_list(),
    {
        let n = self.clusters.len();
        let mut v: Vec<RedshiftCluster> = Vec::new();
        let mut i: usize = 0;
        while i < n
            invariant
                self.wf(),
                n == self.cluster_ids().len(),
                i <= n,
                redshift_cluster_views(v@) == self.cluster_list().subrange(0, i as int),
            decreases n - i,
        {
            let (_, c) = self.clusters.entry(i);
            proof {
                self.clusters.lemma_wf();
                assert(self.clusters@.contains_key(self.clusters.keys()[i as int]));
            }
            let ghost before = v@;
            v.push(c.copy());
            assert(redshift_cluster_views(v@) =~= redshift_cluster_views(before).push(c@));
            assert(self.cluster_list()[i as int] == c@);
            assert(redshift_cluster_views(v@) =~= self.cluster_list().subrange(0, i + 1));
            i = i + 1;
        }
        assert(self.cluster_list().subrange(0, n as int) =~= self.cluster_list());
        v
    }

    /// Copies of the snapshots, in identifier order.
    fn snapshot_copies(&self) -> (v: Vec<ClusterSnapshot>)
        requires
            self.wf(),
        ensures
            cluster_snapshot_views(v@) == self.snapshot_list(),
    {
        let n = self.snapshots.len();
        let mut v: Vec<ClusterSnapshot> = Vec::new();
        let mut i: usize = 0;
        while i < n
            invariant
                self.wf(),
                n == self.snapshot_ids().len(),
                i <= n,
                cluster_snapshot_views(v@) == self.snapshot_list().subrange(0, i as int),
            decreases n - i,
        {
            let (_, s) = self.snapshots.entry(i);
            proof {
                self.snapshots.lemma_wf();
                assert(self.snapshots@.contains_key(self.snapshots.keys()[i as int]));
            }
            let ghost before = v@;
            v.push(s.copy());
            assert(cluster_snapshot_views(v@) =~= cluster_snapshot_views(before).push(s@));
            assert(self.snapshot_list()[i as int] == s@);
            assert(cluster_snapshot_views(v@) =~= self.snapshot_list().subrange(0, i + 1));
            i = i + 1;
        }
        assert(self.snapshot_list().subrange(0, n as int) =~= self.snapshot_list());
        v
    }

    /// The cluster named (an error when there is none), or all clusters in
    /// identifier order.
    pub fn describe_clusters(&self, identifier: Option<&str>) -> (r: Result<Vec<RedshiftCluster>, RedshiftError>)
        requires
            self.wf(),
        ensures
            match r {
                Ok(v) => self.described_clusters(str_opt(identifier)) == Some(redshift_cluster_views(v@)),
                Err(e) => self.described_clusters(str_opt(identifier)) is None
                    && (e matches RedshiftError::ClusterNotFound(x) && str_opt(identifier) == Some(x@)),
            },
    {
        match identifier {
            Some(id) => match self.clusters.get(id) {
                Some(c) => {
                    let v: Vec<RedshiftCluster> = vec![c.copy()];
                    assert(redshift_cluster_views(v@) =~= seq![self.clusters()[id@]]);
                    Ok(v)
                },
                None => Err(RedshiftError::ClusterNotFound(id.to_owned())),
            },
            None => Ok(self.cluster_copies()),
        }
    }

    /// Deletes a cluster, answering it with status `deleting`.
    pub fn delete_cluster(&mut self, identifier: &str) -> (r: Result<RedshiftCluster, RedshiftError>)
        requires
            old(self).wf(),
        ensures
            final(self).wf(),
            redshift_cluster_deleted(*old(self), *final(self), identifier@, r),
    {
        let ghost s0 = *self;
        if !self.clusters.contains(identifier) {
            return Err(RedshiftError::ClusterNotFound(identifier.to_owned()));
        }
        match self.clusters.remove(identifier) {
            None => Err(RedshiftError::ClusterNotFound(identifier.to_owned())),
            Some(mut c) => {
                proof {
                    lemma_map_values_remove(s0.clusters@, identifier@, |c: RedshiftCluster| c@);
                }
                c.cluster_status = "deleting".to_owned();
                Ok(c)
            },
        }
    }

    /// Takes a snapshot of a cluster, stored under the snapshot identifier
    /// (replacing any snapshot there).
    pub fn create_cluster_snapshot(&mut self, snapshot_id: String, cluster_id: String) -> (r: Result<
        ClusterSnapshot,
        RedshiftError,
    >)
        requires
            old(self).wf(),
        ensures
            final(self).wf(),
            cluster_snapshot_taken(*old(self), *final(self), snapshot_id@, cluster_id@, r),
    {
        let ghost s0 = *self;
        let sn = match self.clusters.get(cluster_id.as_str()) {
            None => {
                return Err(RedshiftError::ClusterNotFound(cluster_id));
            },
            Some(c) => ClusterSnapshot {
                snapshot_identifier: snapshot_id.clone(),
                cluster_identifier: cluster_id,
                snapshot_create_time: now_rfc3339(),
                status: "available".to_owned(),
                node_type: c.node_type.clone(),
                number_of_nodes: c.number_of_nodes,
                db_name: c.db_name.clone(),
                master_username: c.master_username.clone(),
                encrypted: c.encrypted,
            },
        };
        proof {
            assert(s0.clusters@.contains_key(cluster_id@));
        }
        let result = sn.copy();
        let ghost gs = sn;
        self.snapshots.insert(snapshot_id, sn);
        proof {
            lemma_map_values_insert(s0.snapshots@, gs.snapshot_identifier@, gs, |s: ClusterSnapshot| s@);
        }
        Ok(result)
    }

    /// The snapshot named (an error when there is none), or all snapshots in
    /// identifier order.
    pub fn describe_cluster_snapshots(&self, snapshot_id: Option<&str>) -> (r: Result<Vec<ClusterSnapshot>, RedshiftError>)
        requires
            self.wf(),
        ensures
            match r {
                Ok(v) => self.described_snapshots(str_opt(snapshot_id)) == Some(cluster_snapshot_views(v@)),
                Err(e) => self.described_snapshots(str_opt(snapshot_id)) is None
                    && (e matches RedshiftError::SnapshotNotFound(x) && str_opt(snapshot_id) == Some(x@)),
            },
    {
        match snapshot_id {
            Some(id) => match self.snapshots.get(id) {
                Some(s) => {
                    let v: Vec<ClusterSnapshot> = vec![s.copy()];
                    assert(cluster_snapshot_views(v@) =~= seq![self.snapshots()[id@]]);
                    Ok(v)
                },
                None => Err(RedshiftError::SnapshotNotFound(id.to_owned())),
            },
            None => Ok(self.snapshot_copies()),
        }
    }

    /// Removes every cluster and snapshot.
    pub fn reset(&mut self)
        requires
            old(self).wf(),
        ensures
            final(self).wf(),
            final(self).clusters() == Map::<Seq<char>, RedshiftClusterView>::empty(),
            final(self).snapshots() == Map::<Seq<char>, ClusterSnapshotView>::empty(),
            final(self).account() == old(self).account(),
            final(self).home_region() == old(self).home_region(),
    {
        self.clusters.clear();
        self.snapshots.clear();
        assert(self.clusters() =~= Map::<Seq<char>, RedshiftClusterView>::empty());
        assert(self.snapshots() =~= Map::<Seq<char>, ClusterSnapshotView>::empty());
    }

    /// Everything held, as lists in identifier order.
    pub fn export_snapshot(&self) -> (r: RedshiftStateSnapshot)
        requires
            self.wf(),
        ensures
            redshift_cluster_views(r.clusters@) == self.cluster_list(),
            cluster_snapshot_views(r.snapshots@) == self.snapshot_list(),
    {
        RedshiftStateSnapshot { clusters: self.cluster_copies(), snapshots: self.snapshot_copies() }
    }

    /// Replaces everything held by the lists of `snapshot`, each entry put
    /// under its own identifier in list order (a later one replacing an
    /// earlier one of the same identifier).
    pub fn import_snapshot(&mut self, snapshot: RedshiftStateSnapshot)
        requires
            old(self).wf(),
        ensures
            final(self).wf(),
            final(self).clusters() == imported_redshift_clusters(redshift_cluster_views(snapshot.clusters@)),
            final(self).snapshots() == imported_cluster_snapshots(cluster_snapshot_views(snapshot.snapshots@)),
            final(self).account() == old(self).account(),
            final(self).home_region() == old(self).home_region(),
    {
        self.clusters.clear();
        self.snapshots.clear();
        let ghost cv = redshift_cluster_views(snapshot.clusters@);
        let ghost sv = cluster_snapshot_views(snapshot.snapshots@);
        assert(self.clusters() =~= imported_redshift_clusters(cv.subrange(0, 0)));
        let mut j: usize = 0;
        while j < snapshot.clusters.len()
            invariant
                self.wf(),
                cv == redshift_cluster_views(snapshot.clusters@),
                j <= cv.len(),
                self.clusters() == imported_redshift_clusters(cv.subrange(0, j as int)),
                self.snapshots() == Map::<Seq<char>, ClusterSnapshotView>::empty(),
                self.account() == old(self).account(),
                self.home_region() == old(self).home_region(),
            decreases cv.len() - j,
        {
            let c = snapshot.clusters[j].copy();
            let ghost gc = c;
            let ghost m0 = self.clusters@;
            self.clusters.insert(c.cluster_identifier.clone(), c);
            proof {
                lemma_map_values_insert(m0, gc.cluster_identifier@, gc, |x: RedshiftCluster| x@);
                assert(cv.subrange(0, j + 1).drop_last() =~= cv.subrange(0, j as int));
                assert(cv[j as int] == gc@);
            }
            j = j + 1;
        }
        assert(cv.subrange(0, cv.len() as int) =~= cv);
        assert(self.snapshots() =~= imported_cluster_snapshots(sv.subrange(0, 0)));
        let mut k: usize = 0;
        while k < snapshot.snapshots.len()
            invariant
                self.wf(),
                sv == cluster_snapshot_views(snapshot.snapshots@),
                k <= sv.len(),
                self.clusters() == imported_redshift_clusters(cv),
                self.snapshots() == imported_cluster_snapshots(sv.subrange(0, k as int)),
                self.account() == old(self).account(),
                self.home_region() == old(self).home_region(),
            decreases sv.len() - k,
        {
            let s = snapshot.snapshots[k].copy();
            let ghost gs = s;
            let ghost m0 = self.snapshots@;
            self.snapshots.insert(s.snapshot_identifier.clone(), s);
            proof {
                lemma_map_values_insert(m0, gs.snapshot_identifier@, gs, |x: ClusterSnapshot| x@);
                assert(sv.subrange(0, k + 1).drop_last() =~= sv.subrange(0, k as int));
                assert(sv[k as int] == gs@);
            }
            k = k + 1;
        }
        assert(sv.subrange(0, sv.len() as int) =~= sv);
    }
}

/// Restoring what was exported gives back the same clusters and snapshots.
pub proof fn law_redshift_snapshot_round_trip(s0: RedshiftState, snap: RedshiftStateSnapshot, s1: RedshiftState)
    requires
        s0.wf(),
        redshift_cluster_views(snap.clusters@) == s0.cluster_list(),
        cluster_snapshot_views(snap.snapshots@) == s0.snapshot_list(),
        s1.clusters() == imported_redshift_clusters(redshift_cluster_views(snap.clusters@)),
        s1.snapshots() == imported_cluster_snapshots(cluster_snapshot_views(snap.snapshots@)),
    ensures
        s1.clusters() == s0.clusters(),
        s1.snapshots() == s0.snapshots(),
{
    s0.lemma_round_trip();
}

/// A created cluster is what describing its identifier finds, and it has as
/// many nodes as asked for (one by default, none when not positive), led by
/// its first.
pub proof fn law_created_cluster_described(
    s0: RedshiftState,
    s1: RedshiftState,
    id: Seq<char>,
    node_type: Option<Seq<char>>,
    master: Option<Seq<char>>,
    db_name: Option<Seq<char>>,
    nodes: Option<i32>,
    encrypted: Option<bool>,
    c: RedshiftCluster,
)
    requires
        redshift_cluster_created(s0, s1, id, node_type, master, db_name, nodes, encrypted, Ok(c)),
    ensures
        s1.described_clusters(Some(id)) == Some(seq![c@]),
        c@.cluster_nodes.len() == (if c@.number_of_nodes > 0 { c@.number_of_nodes as int } else { 0 }),
        c@.cluster_nodes.len() > 0 ==> c@.cluster_nodes[0].node_role == "LEADER"@,
        forall|i: int| 0 < i < c@.cluster_nodes.len() ==> #[trigger] c@.cluster_nodes[i].node_role == "COMPUTE"@,
{
}

/// A deleted cluster is no longer found.
pub proof fn law_deleted_cluster_not_found(s0: RedshiftState, s1: RedshiftState, id: Seq<char>, c: RedshiftCluster)
    requires
        redshift_cluster_deleted(s0, s1, id, Ok(c)),
    ensures
        s1.described_clusters(Some(id)) is None,
{
}

} // verus!
