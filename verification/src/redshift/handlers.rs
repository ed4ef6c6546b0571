//! The query-protocol front of the service: parameters in, XML out.
use vstd::prelude::*;
use crate::http::{reply, request_param_map, request_params, Reply};
use crate::rds::handlers::{
    append_bool, bool_text, param_opt, param_or, param_or_default, param_text, parse_i32, parse_i32_spec, rds_action,
};
use crate::rds::state::{str_opt, text_or};
use crate::redshift::state::{
    created_cluster, taken_cluster_snapshot, RedshiftError, RedshiftState,
};
use crate::redshift::types::{
    cluster_snapshot_views, node_views, redshift_cluster_views, ClusterNode, ClusterSnapshot, ClusterSnapshotView,
    NodeView, RedshiftCluster, RedshiftClusterView, RedshiftEndpointView,
};
use crate::sqs::engine::texts;
use crate::table::Table;
use crate::text::{append, append_i64, signed_decimal, str_eq};

verus! {

/// The XML namespace of the answers.
pub const REDSHIFT_XMLNS: &'static str = "http://redshift.amazonaws.com/doc/2012-12-01/";

/// The content type of the answers.
pub const REDSHIFT_XML_TYPE: &'static str = "text/xml";

/// The endpoint element of a cluster, or nothing.
pub open spec fn redshift_endpoint_xml(e: Option<RedshiftEndpointView>) -> Seq<char> {
    match e {
        Some(ep) => "<Endpoint><Address>"@ + ep.address + "</Address><Port>"@ + signed_decimal(ep.port as int)
            + "</Port></Endpoint>"@,
        None => Seq::empty(),
    }
}

/// A node as XML.
pub open spec fn node_xml(n: NodeView) -> Seq<char> {
    "<ClusterNode><NodeRole>"@ + n.node_role + "</NodeRole><PrivateIPAddress>"@ + n.private_ip_address
        + "</PrivateIPAddress><PublicIPAddress>"@ + n.public_ip_address + "</PublicIPAddress></ClusterNode>"@
}

/// Nodes as XML, one after another.
pub open spec fn nodes_xml(ns: Seq<NodeView>) -> Seq<char>
    decreases ns.len(),
{
    if ns.len() == 0 { Seq::empty() } else { nodes_xml(ns.drop_last()) + node_xml(ns.last()) }
}

/// A cluster as XML; the text is written as it is, unescaped.
pub open spec fn redshift_cluster_xml(c: RedshiftClusterView) -> Seq<char> {
    "<Cluster>\n  <ClusterIdentifier>"@ + c.cluster_identifier
        + "</ClusterIdentifier>\n  <NodeType>"@ + c.node_type
        + "</NodeType>\n  <ClusterStatus>"@ + c.cluster_status
        + "</ClusterStatus>\n  <ClusterAvailabilityStatus>"@ + c.cluster_availability_status
        + "</ClusterAvailabilityStatus>\n  <MasterUsername>"@ + c.master_username
        + "</MasterUsername>\n  <DBName>"@ + c.db_name
        + "</DBName>\n  "@ + redshift_endpoint_xml(c.endpoint)
        + "\n  <NumberOfNodes>"@ + signed_decimal(c.number_of_nodes as int)
        + "</NumberOfNodes>\n  <ClusterNodes>\n    "@ + nodes_xml(c.cluster_nodes)
        + "\n  </ClusterNodes>\n  <Encrypted>"@ + bool_text(c.encrypted)
        + "</Encrypted>\n</Cluster>"@
}

/// Clusters as XML, one after another.
pub open spec fn redshift_clusters_xml(vs: Seq<RedshiftClusterView>) -> Seq<char>
    decreases vs.len(),
{
    if vs.len() == 0 { Seq::empty() } else { redshift_clusters_xml(vs.drop_last()) + redshift_cluster_xml(vs.last()) }
}

/// A snapshot as XML, its fields indented by `ind` and its closing tag by `end`.
pub open spec fn cluster_snapshot_xml(s: ClusterSnapshotView, ind: Seq<char>, end: Seq<char>) -> Seq<char> {
    "<Snapshot>\n"@ + ind + "<SnapshotIdentifier>"@ + s.snapshot_identifier
        + "</SnapshotIdentifier>\n"@ + ind + "<ClusterIdentifier>"@ + s.cluster_identifier
        + "</ClusterIdentifier>\n"@ + ind + "<Status>"@ + s.status
        + "</Status>\n"@ + ind + "<NodeType>"@ + s.node_type
        + "</NodeType>\n"@ + ind + "<NumberOfNodes>"@ + signed_decimal(s.number_of_nodes as int)
        + "</NumberOfNodes>\n"@ + ind + "<DBName>"@ + s.db_name
        + "</DBName>\n"@ + ind + "<MasterUsername>"@ + s.master_username
        + "</MasterUsername>\n"@ + ind + "<Encrypted>"@ + bool_text(s.encrypted)
        + "</Encrypted>\n"@ + end + "</Snapshot>"@
}

/// Snapshots as XML for a listing, one after another.
pub open spec fn cluster_snapshots_xml(vs: Seq<ClusterSnapshotView>) -> Seq<char>
    decreases vs.len(),
{
    if vs.len() == 0 {
        Seq::empty()
    } else {
        cluster_snapshots_xml(vs.drop_last()) + cluster_snapshot_xml(vs.last(), "  "@, ""@)
    }
}

/// The answer to an action: its result element around `inner`, then the
/// request id.
pub open spec fn redshift_response(action: Seq<char>, inner: Seq<char>, request_id: Seq<char>) -> Seq<char> {
    "<"@ + action + "Response xmlns=\""@ + REDSHIFT_XMLNS@ + "\">\n  <"@ + action + "Result>\n    "@ + inner
        + "\n  </"@ + action + "Result>\n  <ResponseMetadata>\n    <RequestId>"@ + request_id
        + "</RequestId>\n  </ResponseMetadata>\n</"@ + action + "Response>"@
}

/// The error answer: sender fault, code `InvalidParameterValue`, the message.
pub open spec fn redshift_error_xml(message: Seq<char>, request_id: Seq<char>) -> Seq<char> {
    "<ErrorResponse xmlns=\""@ + REDSHIFT_XMLNS@
        + "\">\n  <Error>\n    <Type>Sender</Type>\n    <Code>InvalidParameterValue</Code>\n    <Message>"@ + message
        + "</Message>\n  </Error>\n  <RequestId>"@ + request_id + "</RequestId>\n</ErrorResponse>"@
}

/// Writes a cluster as XML.
pub fn render_cluster(c: &RedshiftCluster) -> (r: String)
    ensures
        r@ == redshift_cluster_xml(c@),
{
    let mut s = String::new();
    append(&mut s, "<Cluster>\n  <ClusterIdentifier>");
    append(&mut s, c.cluster_identifier.as_str());
    append(&mut s, "</ClusterIdentifier>\n  <NodeType>");
    append(&mut s, c.node_type.as_str());
    append(&mut s, "</NodeType>\n  <ClusterStatus>");
    append(&mut s, c.cluster_status.as_str());
    append(&mut s, "</ClusterStatus>\n  <ClusterAvailabilityStatus>");
    append(&mut s, c.cluster_availability_status.as_str());
    append(&mut s, "</ClusterAvailabilityStatus>\n  <MasterUsername>");
    append(&mut s, c.master_username.as_str());
    append(&mut s, "</MasterUsername>\n  <DBName>");
    append(&mut s, c.db_name.as_str());
    append(&mut s, "</DBName>\n  ");
    let ghost a = s@;
    match &c.endpoint {
        Some(ep) => {
            append(&mut s, "<Endpoint><Address>");
            append(&mut s, ep.address.as_str());
            append(&mut s, "</Address><Port>");
            append_i64(&mut s, ep.port as i64);
            append(&mut s, "</Port></Endpoint>");
        },
        None => {},
    }
    assert(s@ =~= a + redshift_endpoint_xml(c@.endpoint));
    append(&mut s, "\n  <NumberOfNodes>");
    append_i64(&mut s, c.number_of_nodes as i64);
    append(&mut s, "</NumberOfNodes>\n  <ClusterNodes>\n    ");
    let ghost b = s@;
    let ghost nv = node_views(c.cluster_nodes@);
    let mut i: usize = 0;
    while i < c.cluster_nodes.len()
        invariant
            i <= nv.len(),
            nv == node_views(c.cluster_nodes@),
            s@ == b + nodes_xml(nv.subrange(0, i as int)),
        decreases nv.len() - i,
    {
        let n = &c.cluster_nodes[i];
        append(&mut s, "<ClusterNode><NodeRole>");
        append(&mut s, n.node_role.as_str());
        append(&mut s, "</NodeRole><PrivateIPAddress>");
        append(&mut s, n.private_ip_address.as_str());
        append(&mut s, "</PrivateIPAddress><PublicIPAddress>");
        append(&mut s, n.public_ip_address.as_str());
        append(&mut s, "</PublicIPAddress></ClusterNode>");
        assert(nv.subrange(0, i + 1).drop_last() =~= nv.subrange(0, i as int));
        assert(nv[i as int] == n@);
        i = i + 1;
        assert(s@ =~= b + nodes_xml(nv.subrange(0, i as int)));
    }
    assert(nv.subrange(0, nv.len() as int) =~= nv);
    append(&mut s, "\n  </ClusterNodes>\n  <Encrypted>");
    append_bool(&mut s, c.encrypted);
    append(&mut s, "</Encrypted>\n</Cluster>");
    assert(s@ =~= redshift_cluster_xml(c@));
    s
}

/// Writes a snapshot as XML, its fields indented by `ind` and its closing tag
/// by `end`.
fn render_snapshot(sn: &ClusterSnapshot, ind: &str, end: &str) -> (r: String)
    ensures
        r@ == cluster_snapshot_xml(sn@, ind@, end@),
{
    let mut x = String::new();
    append(&mut x, "<Snapshot>\n");
    append(&mut x, ind);
    append(&mut x, "<SnapshotIdentifier>");
    append(&mut x, sn.snapshot_identifier.as_str());
    append(&mut x, "</SnapshotIdentifier>\n");
    append(&mut x, ind);
    append(&mut x, "<ClusterIdentifier>");
    append(&mut x, sn.cluster_identifier.as_str());
    append(&mut x, "</ClusterIdentifier>\n");
    append(&mut x, ind);
    append(&mut x, "<Status>");
    append(&mut x, sn.status.as_str());
    append(&mut x, "</Status>\n");
    append(&mut x, ind);
    append(&mut x, "<NodeType>");
    append(&mut x, sn.node_type.as_str());
    append(&mut x, "</NodeType>\n");
    append(&mut x, ind);
    append(&mut x, "<NumberOfNodes>");
    append_i64(&mut x, sn.number_of_nodes as i64);
    append(&mut x, "</NumberOfNodes>\n");
    append(&mut x, ind);
    append(&mut x, "<DBName>");
    append(&mut x, sn.db_name.as_str());
    append(&mut x, "</DBName>\n");
    append(&mut x, ind);
    append(&mut x, "<MasterUsername>");
    append(&mut x, sn.master_username.as_str());
    append(&mut x, "</MasterUsername>\n");
    append(&mut x, ind);
    append(&mut x, "<Encrypted>");
    append_bool(&mut x, sn.encrypted);
    append(&mut x, "</Encrypted>\n");
    append(&mut x, end);
    append(&mut x, "</Snapshot>");
    assert(x@ =~= cluster_snapshot_xml(sn@, ind@, end@));
    x
}

/// The answer to an action, around `inner`.
fn redshift_ok(action: &str, inner: &str, request_id: &str) -> (r: Reply)
    ensures
        r.status == 200,
        r.content_type@ == REDSHIFT_XML_TYPE@,
        r.body@ == redshift_response(action@, inner@, request_id@),
{
    let mut s = String::new();
    append(&mut s, "<");
    append(&mut s, action);
    append(&mut s, "Response xmlns=\"");
    append(&mut s, REDSHIFT_XMLNS);
    append(&mut s, "\">\n  <");
    append(&mut s, action);
    append(&mut s, "Result>\n    ");
    append(&mut s, inner);
    append(&mut s, "\n  </");
    append(&mut s, action);
    append(&mut s, "Result>\n  <ResponseMetadata>\n    <RequestId>");
    append(&mut s, request_id);
    append(&mut s, "</RequestId>\n  </ResponseMetadata>\n</");
    append(&mut s, action);
    append(&mut s, "Response>");
    assert(s@ =~= redshift_response(action@, inner@, request_id@));
    reply(200, REDSHIFT_XML_TYPE, s)
}

/// An error answer with the given status.
pub fn render_redshift_error(message: &str, status: u16, request_id: &str) -> (r: Reply)
    ensures
        r.status == status,
        r.content_type@ == REDSHIFT_XML_TYPE@,
        r.body@ == redshift_error_xml(message@, request_id@),
{
    let mut s = String::new();
    append(&mut s, "<ErrorResponse xmlns=\"");
    append(&mut s, REDSHIFT_XMLNS);
    append(&mut s, "\">\n  <Error>\n    <Type>Sender</Type>\n    <Code>InvalidParameterValue</Code>\n    <Message>");
    append(&mut s, message);
    append(&mut s, "</Message>\n  </Error>\n  <RequestId>");
    append(&mut s, request_id);
    append(&mut s, "</RequestId>\n</ErrorResponse>");
    assert(s@ =~= redshift_error_xml(message@, request_id@));
    reply(status, REDSHIFT_XML_TYPE, s)
}

/// Nothing held changed.
pub open spec fn redshift_unchanged(s0: RedshiftState, s1: RedshiftState) -> bool {
    &&& s1.same_but_clusters(&s0)
    &&& s1.clusters() == s0.clusters()
    &&& s1.cluster_ids() == s0.cluster_ids()
}

/// `CreateCluster`: refused with 400 when the identifier is in use, else the
/// new cluster is stored and answered.
pub open spec fn create_cluster_handled(
    s0: RedshiftState,
    s1: RedshiftState,
    p: Map<Seq<char>, Seq<char>>,
    rid: Seq<char>,
    r: Reply,
) -> bool {
    let id = param_or(p, "ClusterIdentifier"@, ""@);
    &&& s1.same_but_clusters(&s0)
    &&& if s0.clusters().contains_key(id) {
        &&& s1.clusters() == s0.clusters()
        &&& s1.cluster_ids() == s0.cluster_ids()
        &&& r.status == 400
        &&& r.body@ == redshift_error_xml("ClusterAlreadyExistsFault: Cluster "@ + id + " already exists"@, rid)
    } else {
        let c = s1.clusters()[id];
        &&& s1.clusters() == s0.clusters().insert(id, c)
        &&& c == created_cluster(
            id,
            param_text(p, "NodeType"@),
            param_text(p, "MasterUsername"@),
            param_text(p, "DBName"@),
            match param_text(p, "NumberOfNodes"@) {
                Some(s) => parse_i32_spec(s),
                None => None,
            },
            match param_text(p, "Encrypted"@) {
                Some(s) => Some(s == "true"@),
                None => None,
            },
            s0.home_region(),
            c.cluster_create_time,
        )
        &&& r.status == 200
        &&& r.body@ == redshift_response("CreateCluster"@, redshift_cluster_xml(c), rid)
    }
}

/// `DescribeClusters`: the clusters found, or 404 for an unknown identifier.
pub open spec fn describe_clusters_handled(
    s0: RedshiftState,
    s1: RedshiftState,
    p: Map<Seq<char>, Seq<char>>,
    rid: Seq<char>,
    r: Reply,
) -> bool {
    &&& redshift_unchanged(s0, s1)
    &&& match s0.described_clusters(param_text(p, "ClusterIdentifier"@)) {
        Some(vs) => r.status == 200 && r.body@ == redshift_response(
            "DescribeClusters"@,
            "<Clusters>\n      "@ + redshift_clusters_xml(vs) + "\n    </Clusters>"@,
            rid,
        ),
        None => r.status == 404 && r.body@ == redshift_error_xml(
            "ClusterNotFoundFault: Cluster "@ + p["ClusterIdentifier"@] + " not found"@,
            rid,
        ),
    }
}

/// `DeleteCluster`: the cluster removed and answered as `deleting`, or 404.
pub open spec fn delete_cluster_handled(
    s0: RedshiftState,
    s1: RedshiftState,
    p: Map<Seq<char>, Seq<char>>,
    rid: Seq<char>,
    r: Reply,
) -> bool {
    let id = param_or(p, "ClusterIdentifier"@, ""@);
    &&& s1.same_but_clusters(&s0)
    &&& if s0.clusters().contains_key(id) {
        &&& s1.clusters() == s0.clusters().remove(id)
        &&& r.status == 200
        &&& r.body@ == redshift_response(
            "DeleteCluster"@,
            redshift_cluster_xml(RedshiftClusterView { cluster_status: "deleting"@, ..s0.clusters()[id] }),
            rid,
        )
    } else {
        &&& redshift_unchanged(s0, s1)
        &&& r.status == 404
        &&& r.body@ == redshift_error_xml("ClusterNotFoundFault: Cluster "@ + id + " not found"@, rid)
    }
}

/// `CreateClusterSnapshot`: a snapshot of the cluster stored and answered, or
/// 400 for an unknown cluster.
pub open spec fn create_snapshot_handled(
    s0: RedshiftState,
    s1: RedshiftState,
    p: Map<Seq<char>, Seq<char>>,
    rid: Seq<char>,
    r: Reply,
) -> bool {
    let sid = param_or(p, "SnapshotIdentifier"@, ""@);
    let cid = param_or(p, "ClusterIdentifier"@, ""@);
    &&& s1.same_but_snapshots(&s0)
    &&& if s0.clusters().contains_key(cid) {
        let sn = s1.snapshots()[sid];
        &&& s1.snapshots() == s0.snapshots().insert(sid, sn)
        &&& sn == taken_cluster_snapshot(sid, s0.clusters()[cid], sn.snapshot_create_time)
        &&& r.status == 200
        &&& r.body@ == redshift_response("CreateClusterSnapshot"@, cluster_snapshot_xml(sn, "      "@, "    "@), rid)
    } else {
        &&& s1.snapshots() == s0.snapshots()
        &&& s1.snapshot_ids() == s0.snapshot_ids()
        &&& r.status == 400
        &&& r.body@ == redshift_error_xml("ClusterNotFoundFault: Cluster "@ + cid + " not found"@, rid)
    }
}

/// `DescribeClusterSnapshots`: the snapshots found, or 404 for an unknown
/// identifier.
pub open spec fn describe_snapshots_handled(
    s0: RedshiftState,
    s1: RedshiftState,
    p: Map<Seq<char>, Seq<char>>,
    rid: Seq<char>,
    r: Reply,
) -> bool {
    &&& redshift_unchanged(s0, s1)
    &&& match s0.described_snapshots(param_text(p, "SnapshotIdentifier"@)) {
        Some(vs) => r.status == 200 && r.body@ == redshift_response(
            "DescribeClusterSnapshots"@,
            "<Snapshots>\n      "@ + cluster_snapshots_xml(vs) + "\n    </Snapshots>"@,
            rid,
        ),
        None => r.status == 404 && r.body@ == redshift_error_xml(
            "ClusterSnapshotNotFoundFault: Snapshot "@ + p["SnapshotIdentifier"@] + " not found"@,
            rid,
        ),
    }
}

/// What handling a request does, by the action it names; any other action is
/// answered 400 and changes nothing.
pub open spec fn redshift_handled(
    s0: RedshiftState,
    s1: RedshiftState,
    p: Map<Seq<char>, Seq<char>>,
    rid: Seq<char>,
    r: Reply,
) -> bool {
    let a = rds_action(p);
    &&& r.content_type@ == REDSHIFT_XML_TYPE@
    &&& if a == "CreateCluster"@ {
        create_cluster_handled(s0, s1, p, rid, r)
    } else if a == "DescribeClusters"@ {
        describe_clusters_handled(s0, s1, p, rid, r)
    } else if a == "DeleteCluster"@ {
        delete_cluster_handled(s0, s1, p, rid, r)
    } else if a == "CreateClusterSnapshot"@ {
        create_snapshot_handled(s0, s1, p, rid, r)
    } else if a == "DescribeClusterSnapshots"@ {
        describe_snapshots_handled(s0, s1, p, rid, r)
    } else {
        &&& redshift_unchanged(s0, s1)
        &&& r.status == 400
        &&& r.body@ == redshift_error_xml("Unknown Action: "@ + a, rid)
    }
}

/// Handles `CreateCluster`.
fn create_cluster_action(state: &mut RedshiftState, p: &Table<String>, request_id: &str) -> (r: Reply)
    requires
        old(state).wf(),
        p.wf(),
    ensures
        final(state).wf(),
        r.content_type@ == REDSHIFT_XML_TYPE@,
        create_cluster_handled(*old(state), *final(state), texts(*p), request_id@, r),
{
    let identifier = param_or_default(p, "ClusterIdentifier", "");
    let node_type = param_opt(p, "NodeType");
    let master = param_opt(p, "MasterUsername");
    let db_name = param_opt(p, "DBName");
    let nodes = match p.get("NumberOfNodes") {
        Some(s) => parse_i32(s.as_str()),
        None => None,
    };
    let encrypted = match p.get("Encrypted") {
        Some(s) => Some(str_eq(s.as_str(), "true")),
        None => None,
    };
    match state.create_cluster(identifier, node_type, master, db_name, nodes, encrypted) {
        Ok(c) => {
            let x = render_cluster(&c);
            redshift_ok("CreateCluster", x.as_str(), request_id)
        },
        Err(e) => {
            let m = e.message();
            render_redshift_error(m.as_str(), 400, request_id)
        },
    }
}

/// Handles `DescribeClusters`.
fn describe_clusters_action(state: &RedshiftState, p: &Table<String>, request_id: &str) -> (r: Reply)
    requires
        state.wf(),
        p.wf(),
    ensures
        r.content_type@ == REDSHIFT_XML_TYPE@,
        describe_clusters_handled(*state, *state, texts(*p), request_id@, r),
{
    let id = param_opt(p, "ClusterIdentifier");
    let res = match &id {
        Some(s) => state.describe_clusters(Some(s.as_str())),
        None => state.describe_clusters(None),
    };
    match res {
        Ok(list) => {
            let ghost lv = redshift_cluster_views(list@);
            let mut items = String::new();
            let mut i: usize = 0;
            while i < list.len()
                invariant
                    i <= lv.len(),
                    lv == redshift_cluster_views(list@),
                    items@ == redshift_clusters_xml(lv.subrange(0, i as int)),
                decreases lv.len() - i,
            {
                let x = render_cluster(&list[i]);
                append(&mut items, x.as_str());
                assert(lv.subrange(0, i + 1).drop_last() =~= lv.subrange(0, i as int));
                i = i + 1;
            }
            assert(lv.subrange(0, lv.len() as int) =~= lv);
            let mut inner = String::new();
            append(&mut inner, "<Clusters>\n      ");
            append(&mut inner, items.as_str());
            append(&mut inner, "\n    </Clusters>");
            redshift_ok("DescribeClusters", inner.as_str(), request_id)
        },
        Err(e) => {
            let m = e.message();
            render_redshift_error(m.as_str(), 404, request_id)
        },
    }
}

/// Handles `DeleteCluster`.
fn delete_cluster_action(state: &mut RedshiftState, p: &Table<String>, request_id: &str) -> (r: Reply)
    requires
        old(state).wf(),
        p.wf(),
    ensures
        final(state).wf(),
        r.content_type@ == REDSHIFT_XML_TYPE@,
        delete_cluster_handled(*old(state), *final(state), texts(*p), request_id@, r),
{
    let identifier = param_or_default(p, "ClusterIdentifier", "");
    match state.delete_cluster(identifier.as_str()) {
        Ok(c) => {
            let x = render_cluster(&c);
            redshift_ok("DeleteCluster", x.as_str(), request_id)
        },
        Err(e) => {
            let m = e.message();
            render_redshift_error(m.as_str(), 404, request_id)
        },
    }
}

/// Handles `CreateClusterSnapshot`.
fn create_snapshot_action(state: &mut RedshiftState, p: &Table<String>, request_id: &str) -> (r: Reply)
    requires
        old(state).wf(),
        p.wf(),
    ensures
        final(state).wf(),
        r.content_type@ == REDSHIFT_XML_TYPE@,
        create_snapshot_handled(*old(state), *final(state), texts(*p), request_id@, r),
{
    let snapshot_id = param_or_default(p, "SnapshotIdentifier", "");
    let cluster_id = param_or_default(p, "ClusterIdentifier", "");
    match state.create_cluster_snapshot(snapshot_id, cluster_id) {
        Ok(sn) => {
            let x = render_snapshot(&sn, "      ", "    ");
            redshift_ok("CreateClusterSnapshot", x.as_str(), request_id)
        },
        Err(e) => {
            let m = e.message();
            render_redshift_error(m.as_str(), 400, request_id)
        },
    }
}

/// Handles `DescribeClusterSnapshots`.
fn describe_snapshots_action(state: &RedshiftState, p: &Table<String>, request_id: &str) -> (r: Reply)
    requires
        state.wf(),
        p.wf(),
    ensures
        r.content_type@ == REDSHIFT_XML_TYPE@,
        describe_snapshots_handled(*state, *state, texts(*p), request_id@, r),
{
    let id = param_opt(p, "SnapshotIdentifier");
    let res = match &id {
        Some(s) => state.describe_cluster_snapshots(Some(s.as_str())),
        None => state.describe_cluster_snapshots(None),
    };
    match res {
        Ok(list) => {
            let ghost lv = cluster_snapshot_views(list@);
            let mut items = String::new();
            let mut i: usize = 0;
            while i < list.len()
                invariant
                    i <= lv.len(),
                    lv == cluster_snapshot_views(list@),
                    items@ == cluster_snapshots_xml(lv.subrange(0, i as int)),
                decreases lv.len() - i,
            {
                let x = render_snapshot(&list[i], "  ", "");
                append(&mut items, x.as_str());
                assert(lv.subrange(0, i + 1).drop_last() =~= lv.subrange(0, i as int));
                i = i + 1;
            }
            assert(lv.subrange(0, lv.len() as int) =~= lv);
            let mut inner = String::new();
            append(&mut inner, "<Snapshots>\n      ");
            append(&mut inner, items.as_str());
            append(&mut inner, "\n    </Snapshots>");
            redshift_ok("DescribeClusterSnapshots", inner.as_str(), request_id)
        },
        Err(e) => {
            let m = e.message();
            render_redshift_error(m.as_str(), 404, request_id)
        },
    }
}

/// Handles a request of the query protocol: its parameters are read from the
/// query string and then the form body, and the action they name is done.
pub fn handle_redshift_request(state: &mut RedshiftState, query: Option<&str>, body: &[u8], request_id: &str) -> (r:
    Reply)
    requires
        old(state).wf(),
    ensures
        final(state).wf(),
        redshift_handled(*old(state), *final(state), request_param_map(str_opt(query), body@), request_id@, r),
{
    let p = request_params(query, body);
    let ghost pm = texts(p);
    assert(pm == request_param_map(str_opt(query), body@));
    let action = param_or_default(&p, "Action", "");
    if str_eq(action.as_str(), "CreateCluster") {
        create_cluster_action(state, &p, request_id)
    } else if str_eq(action.as_str(), "DescribeClusters") {
        describe_clusters_action(state, &p, request_id)
    } else if str_eq(action.as_str(), "DeleteCluster") {
        delete_cluster_action(state, &p, request_id)
    } else if str_eq(action.as_str(), "CreateClusterSnapshot") {
        create_snapshot_action(state, &p, request_id)
    } else if str_eq(action.as_str(), "DescribeClusterSnapshots") {
        describe_snapshots_action(state, &p, request_id)
    } else {
        let mut m = String::new();
        append(&mut m, "Unknown Action: ");
        append(&mut m, action.as_str());
        render_redshift_error(m.as_str(), 400, request_id)
    }
}

} // verus!
