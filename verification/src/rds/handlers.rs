//! The query-protocol front of the service: parameters in, XML out.
use vstd::prelude::*;
use crate::http::{reply, request_param_map, request_params, Reply};
use crate::rds::state::{
    cluster_created, created_cluster, created_instance, instance_created, instance_deleted, snapshot_taken,
    str_opt, taken_snapshot, text_or, RdsError, RdsState,
};
use crate::rds::types::{
    cluster_views, instance_views, ClusterView, DBCluster, DBInstance, EndpointView, InstanceView, SnapshotView,
};
use crate::ses::state::opt_text;
use crate::sqs::engine::texts;
use crate::table::Table;
use crate::text::{append, append_i64, parse_i64, parse_i64_spec, signed_decimal, str_eq};

verus! {

/// The XML namespace of the answers.
pub const RDS_XMLNS: &'static str = "http://rds.amazonaws.com/doc/2014-10-31/";

/// The content type of the answers.
pub const RDS_XML_TYPE: &'static str = "text/xml";

/// `true` or `false`.
pub open spec fn bool_text(b: bool) -> Seq<char> {
    if b { "true"@ } else { "false"@ }
}

/// Appends `true` or `false`.
pub(crate) fn append_bool(s: &mut String, b: bool)
    ensures
        final(s)@ == old(s)@ + bool_text(b),
{
    if b {
        append(s, "true");
    } else {
        append(s, "false");
    }
}

/// What `str::parse::<i32>` gives: the `i64` reading, when in range.
pub open spec fn parse_i32_spec(s: Seq<char>) -> Option<i32> {
    match parse_i64_spec(s) {
        Some(v) => if i32::MIN <= v <= i32::MAX { Some(v as i32) } else { None },
        None => None,
    }
}

/// `str::parse::<i32>`.
pub fn parse_i32(s: &str) -> (r: Option<i32>)
    ensures
        r == parse_i32_spec(s@),
{
    match parse_i64(s) {
        Some(v) => if -2147483648i64 <= v && v <= 2147483647i64 { Some(v as i32) } else { None },
        None => None,
    }
}

/// The endpoint element of an instance, or nothing.
pub open spec fn endpoint_xml(e: Option<EndpointView>) -> Seq<char> {
    match e {
        Some(ep) => "<Endpoint><Address>"@ + ep.address + "</Address><Port>"@ + signed_decimal(ep.port as int)
            + "</Port><HostedZoneId>"@ + ep.hosted_zone_id + "</HostedZoneId></Endpoint>"@,
        None => Seq::empty(),
    }
}

/// An instance as XML; the text is written as it is, unescaped.
pub open spec fn instance_xml(v: InstanceView) -> Seq<char> {
    "<DBInstance>\n  <DBInstanceIdentifier>"@ + v.db_instance_identifier
        + "</DBInstanceIdentifier>\n  <DBInstanceClass>"@ + v.db_instance_class
        + "</DBInstanceClass>\n  <Engine>"@ + v.engine
        + "</Engine>\n  <EngineVersion>"@ + v.engine_version
        + "</EngineVersion>\n  <DBInstanceStatus>"@ + v.db_instance_status
        + "</DBInstanceStatus>\n  <MasterUsername>"@ + v.master_username
        + "</MasterUsername>\n  "@ + endpoint_xml(v.endpoint)
        + "\n  <AllocatedStorage>"@ + signed_decimal(v.allocated_storage as int)
        + "</AllocatedStorage>\n  <MultiAZ>"@ + bool_text(v.multi_az)
        + "</MultiAZ>\n  <StorageType>"@ + v.storage_type
        + "</StorageType>\n</DBInstance>"@
}

/// A cluster as XML; missing endpoints are written empty.
pub open spec fn cluster_xml(c: ClusterView) -> Seq<char> {
    "<DBCluster>\n  <DBClusterIdentifier>"@ + c.db_cluster_identifier
        + "</DBClusterIdentifier>\n  <Engine>"@ + c.engine
        + "</Engine>\n  <EngineVersion>"@ + c.engine_version
        + "</EngineVersion>\n  <Status>"@ + c.status
        + "</Status>\n  <MasterUsername>"@ + c.master_username
        + "</MasterUsername>\n  <Endpoint>"@ + text_or(c.endpoint, Seq::empty())
        + "</Endpoint>\n  <ReaderEndpoint>"@ + text_or(c.reader_endpoint, Seq::empty())
        + "</ReaderEndpoint>\n  <Port>"@ + signed_decimal(c.port as int)
        + "</Port>\n  <MultiAZ>"@ + bool_text(c.multi_az)
        + "</MultiAZ>\n</DBCluster>"@
}

/// Instances as XML, one after another.
pub open spec fn instances_xml(vs: Seq<InstanceView>) -> Seq<char>
    decreases vs.len(),
{
    if vs.len() == 0 { Seq::empty() } else { instances_xml(vs.drop_last()) + instance_xml(vs.last()) }
}

/// Clusters as XML, one after another.
pub open spec fn clusters_xml(vs: Seq<ClusterView>) -> Seq<char>
    decreases vs.len(),
{
    if vs.len() == 0 { Seq::empty() } else { clusters_xml(vs.drop_last()) + cluster_xml(vs.last()) }
}

/// A snapshot as the body of the answer to `CreateDBSnapshot`.
pub open spec fn snapshot_xml(s: SnapshotView) -> Seq<char> {
    "<DBSnapshot>\n      <DBSnapshotIdentifier>"@ + s.db_snapshot_identifier
        + "</DBSnapshotIdentifier>\n      <DBInstanceIdentifier>"@ + s.db_instance_identifier
        + "</DBInstanceIdentifier>\n      <Engine>"@ + s.engine
        + "</Engine>\n      <AllocatedStorage>"@ + signed_decimal(s.allocated_storage as int)
        + "</AllocatedStorage>\n      <Status>"@ + s.status
        + "</Status>\n      <MasterUsername>"@ + s.master_username
        + "</MasterUsername>\n    </DBSnapshot>"@
}

/// The answer to an action: its result element around `inner`, then the
/// request id.
pub open spec fn rds_response(action: Seq<char>, inner: Seq<char>, request_id: Seq<char>) -> Seq<char> {
    "<"@ + action + "Response xmlns=\""@ + RDS_XMLNS@ + "\">\n  <"@ + action + "Result>\n    "@ + inner
        + "\n  </"@ + action + "Result>\n  <ResponseMetadata>\n    <RequestId>"@ + request_id
        + "</RequestId>\n  </ResponseMetadata>\n</"@ + action + "Response>"@
}

/// The error answer: sender fault, code `InvalidParameterValue`, the message.
pub open spec fn rds_error_xml(message: Seq<char>, request_id: Seq<char>) -> Seq<char> {
    "<ErrorResponse xmlns=\""@ + RDS_XMLNS@
        + "\">\n  <Error>\n    <Type>Sender</Type>\n    <Code>InvalidParameterValue</Code>\n    <Message>"@ + message
        + "</Message>\n  </Error>\n  <RequestId>"@ + request_id + "</RequestId>\n</ErrorResponse>"@
}

/// Writes an instance as XML.
pub fn render_db_instance(inst: &DBInstance) -> (r: String)
    ensures
        r@ == instance_xml(inst@),
{
    let mut s = String::new();
    append(&mut s, "<DBInstance>\n  <DBInstanceIdentifier>");
    append(&mut s, inst.db_instance_identifier.as_str());
    append(&mut s, "</DBInstanceIdentifier>\n  <DBInstanceClass>");
    append(&mut s, inst.db_instance_class.as_str());
    append(&mut s, "</DBInstanceClass>\n  <Engine>");
    append(&mut s, inst.engine.as_str());
    append(&mut s, "</Engine>\n  <EngineVersion>");
    append(&mut s, inst.engine_version.as_str());
    append(&mut s, "</EngineVersion>\n  <DBInstanceStatus>");
    append(&mut s, inst.db_instance_status.as_str());
    append(&mut s, "</DBInstanceStatus>\n  <MasterUsername>");
    append(&mut s, inst.master_username.as_str());
    append(&mut s, "</MasterUsername>\n  ");
    let ghost mid = s@;
    match &inst.endpoint {
        Some(ep) => {
            append(&mut s, "<Endpoint><Address>");
            append(&mut s, ep.address.as_str());
            append(&mut s, "</Address><Port>");
            append_i64(&mut s, ep.port as i64);
            append(&mut s, "</Port><HostedZoneId>");
            append(&mut s, ep.hosted_zone_id.as_str());
            append(&mut s, "</HostedZoneId></Endpoint>");
        },
        None => {},
    }
    assert(s@ =~= mid + endpoint_xml(inst@.endpoint));
    append(&mut s, "\n  <AllocatedStorage>");
    append_i64(&mut s, inst.allocated_storage as i64);
    append(&mut s, "</AllocatedStorage>\n  <MultiAZ>");
    append_bool(&mut s, inst.multi_az);
    append(&mut s, "</MultiAZ>\n  <StorageType>");
    append(&mut s, inst.storage_type.as_str());
    append(&mut s, "</StorageType>\n</DBInstance>");
    assert(s@ =~= instance_xml(inst@));
    s
}

/// Writes a cluster as XML.
pub fn render_db_cluster(c: &DBCluster) -> (r: String)
    ensures
        r@ == cluster_xml(c@),
{
    let mut s = String::new();
    append(&mut s, "<DBCluster>\n  <DBClusterIdentifier>");
    append(&mut s, c.db_cluster_identifier.as_str());
    append(&mut s, "</DBClusterIdentifier>\n  <Engine>");
    append(&mut s, c.engine.as_str());
    append(&mut s, "</Engine>\n  <EngineVersion>");
    append(&mut s, c.engine_version.as_str());
    append(&mut s, "</EngineVersion>\n  <Status>");
    append(&mut s, c.status.as_str());
    append(&mut s, "</Status>\n  <MasterUsername>");
    append(&mut s, c.master_username.as_str());
    append(&mut s, "</MasterUsername>\n  <Endpoint>");
    match &c.endpoint {
        Some(e) => append(&mut s, e.as_str()),
        None => {},
    }
    append(&mut s, "</Endpoint>\n  <ReaderEndpoint>");
    match &c.reader_endpoint {
        Some(e) => append(&mut s, e.as_str()),
        None => {},
    }
    append(&mut s, "</ReaderEndpoint>\n  <Port>");
    append_i64(&mut s, c.port as i64);
    append(&mut s, "</Port>\n  <MultiAZ>");
    append_bool(&mut s, c.multi_az);
    append(&mut s, "</MultiAZ>\n</DBCluster>");
    assert(s@ =~= cluster_xml(c@));
    s
}

/// The answer to an action, around `inner`.
fn response_text(action: &str, inner: &str, request_id: &str) -> (r: String)
    ensures
        r@ == rds_response(action@, inner@, request_id@),
{
    let mut s = String::new();
    append(&mut s, "<");
    append(&mut s, action);
    append(&mut s, "Response xmlns=\"");
    append(&mut s, RDS_XMLNS);
    append(&mut s, "\">\n  <");
    append(&mut s, action);
    append(&mut s, "Result>\n    ");
    append(&mut s, inner);
    append(&mut s, "\n  </");
    append(&mut s, action);
    append(&mut s, "Result>\n  <ResponseMetadata>\n    <RequestId>");
    append(&mut s, request_id);
    append(&mut s, "</RequestId>\n  </ResponseMetadata>\n</");
    append(&mut s, action);
    append(&mut s, "Response>");
    assert(s@ =~= rds_response(action@, inner@, request_id@));
    s
}

/// An error answer with the given status.
pub fn render_rds_error(message: &str, status: u16, request_id: &str) -> (r: Reply)
    ensures
        r.status == status,
        r.content_type@ == RDS_XML_TYPE@,
        r.body@ == rds_error_xml(message@, request_id@),
{
    let mut s = String::new();
    append(&mut s, "<ErrorResponse xmlns=\"");
    append(&mut s, RDS_XMLNS);
    append(&mut s, "\">\n  <Error>\n    <Type>Sender</Type>\n    <Code>InvalidParameterValue</Code>\n    <Message>");
    append(&mut s, message);
    append(&mut s, "</Message>\n  </Error>\n  <RequestId>");
    append(&mut s, request_id);
    append(&mut s, "</RequestId>\n</ErrorResponse>");
    assert(s@ =~= rds_error_xml(message@, request_id@));
    reply(status, RDS_XML_TYPE, s)
}

/// A successful answer.
fn ok_reply(action: &str, inner: &str, request_id: &str) -> (r: Reply)
    ensures
        r.status == 200,
        r.content_type@ == RDS_XML_TYPE@,
        r.body@ == rds_response(action@, inner@, request_id@),
{
    reply(200, RDS_XML_TYPE, response_text(action, inner, request_id))
}

/// A parameter of the request, if given.
pub open spec fn param_text(p: Map<Seq<char>, Seq<char>>, k: Seq<char>) -> Option<Seq<char>> {
    if p.contains_key(k) { Some(p[k]) } else { None }
}

/// The action a request names (empty when none).
pub open spec fn rds_action(p: Map<Seq<char>, Seq<char>>) -> Seq<char> {
    text_or(param_text(p, "Action"@), ""@)
}

/// A parameter, or a default.
pub open spec fn param_or(p: Map<Seq<char>, Seq<char>>, k: Seq<char>, d: Seq<char>) -> Seq<char> {
    text_or(param_text(p, k), d)
}

/// Nothing held changed.
pub open spec fn unchanged(s0: RdsState, s1: RdsState) -> bool {
    &&& s1.same_but_instances(&s0)
    &&& s1.instances() == s0.instances()
    &&& s1.instance_ids() == s0.instance_ids()
}

/// `CreateDBInstance`: refused with 400 when the identifier is in use, else the
/// new instance is stored and answered.
pub open spec fn create_instance_handled(
    s0: RdsState,
    s1: RdsState,
    p: Map<Seq<char>, Seq<char>>,
    rid: Seq<char>,
    r: Reply,
) -> bool {
    let id = param_or(p, "DBInstanceIdentifier"@, ""@);
    if s0.instances().contains_key(id) {
        &&& unchanged(s0, s1)
        &&& r.status == 400
        &&& r.body@ == rds_error_xml("DBInstanceAlreadyExists: DBInstance "@ + id + " already exists"@, rid)
    } else {
        let inst = s1.instances()[id];
        &&& s1.same_but_instances(&s0)
        &&& s1.instances() == s0.instances().insert(id, inst)
        &&& inst == created_instance(
            id,
            param_or(p, "DBInstanceClass"@, "db.t3.micro"@),
            param_or(p, "Engine"@, "postgres"@),
            param_text(p, "EngineVersion"@),
            param_or(p, "MasterUsername"@, "postgres"@),
            param_text(p, "DBName"@),
            match param_text(p, "AllocatedStorage"@) {
                Some(s) => parse_i32_spec(s),
                None => None,
            },
            param_text(p, "DBClusterIdentifier"@),
            s0.home_region(),
            inst.instance_create_time,
        )
        &&& r.status == 200
        &&& r.body@ == rds_response("CreateDBInstance"@, instance_xml(inst), rid)
    }
}

/// `DescribeDBInstances`: the instances found, or 404 for an unknown identifier.
pub open spec fn describe_instances_handled(
    s0: RdsState,
    s1: RdsState,
    p: Map<Seq<char>, Seq<char>>,
    rid: Seq<char>,
    r: Reply,
) -> bool {
    &&& unchanged(s0, s1)
    &&& match s0.described_instances(param_text(p, "DBInstanceIdentifier"@)) {
        Some(vs) => r.status == 200 && r.body@ == rds_response(
            "DescribeDBInstances"@,
            "<DBInstances>\n      "@ + instances_xml(vs) + "\n    </DBInstances>"@,
            rid,
        ),
        None => r.status == 404 && r.body@ == rds_error_xml(
            "DBInstanceNotFound: DBInstance "@ + p["DBInstanceIdentifier"@] + " not found"@,
            rid,
        ),
    }
}

/// `DeleteDBInstance`: the instance removed and answered as `deleting`, or 404.
pub open spec fn delete_instance_handled(
    s0: RdsState,
    s1: RdsState,
    p: Map<Seq<char>, Seq<char>>,
    rid: Seq<char>,
    r: Reply,
) -> bool {
    let id = param_or(p, "DBInstanceIdentifier"@, ""@);
    &&& s1.same_but_instances(&s0)
    &&& if s0.instances().contains_key(id) {
        &&& s1.instances() == s0.instances().remove(id)
        &&& r.status == 200
        &&& r.body@ == rds_response(
            "DeleteDBInstance"@,
            instance_xml(InstanceView { db_instance_status: "deleting"@, ..s0.instances()[id] }),
            rid,
        )
    } else {
        &&& unchanged(s0, s1)
        &&& r.status == 404
        &&& r.body@ == rds_error_xml("DBInstanceNotFound: DBInstance "@ + id + " not found"@, rid)
    }
}

/// `CreateDBCluster`: refused with 400 when the identifier is in use, else the
/// new cluster is stored and answered.
pub open spec fn create_cluster_handled(
    s0: RdsState,
    s1: RdsState,
    p: Map<Seq<char>, Seq<char>>,
    rid: Seq<char>,
    r: Reply,
) -> bool {
    let id = param_or(p, "DBClusterIdentifier"@, ""@);
    &&& s1.same_but_clusters(&s0)
    &&& if s0.clusters().contains_key(id) {
        &&& s1.clusters() == s0.clusters()
        &&& s1.cluster_ids() == s0.cluster_ids()
        &&& r.status == 400
        &&& r.body@ == rds_error_xml("DBClusterAlreadyExistsFault: DBCluster "@ + id + " already exists"@, rid)
    } else {
        let c = s1.clusters()[id];
        &&& s1.clusters() == s0.clusters().insert(id, c)
        &&& c == created_cluster(
            id,
            param_or(p, "Engine"@, "aurora-postgresql"@),
            param_text(p, "EngineVersion"@),
            param_or(p, "MasterUsername"@, "postgres"@),
            param_text(p, "DatabaseName"@),
            s0.home_region(),
            c.cluster_create_time,
        )
        &&& r.status == 200
        &&& r.body@ == rds_response("CreateDBCluster"@, cluster_xml(c), rid)
    }
}

/// `DescribeDBClusters`: the clusters found, or 404 for an unknown identifier.
pub open spec fn describe_clusters_handled(
    s0: RdsState,
    s1: RdsState,
    p: Map<Seq<char>, Seq<char>>,
    rid: Seq<char>,
    r: Reply,
) -> bool {
    &&& unchanged(s0, s1)
    &&& match s0.described_clusters(param_text(p, "DBClusterIdentifier"@)) {
        Some(vs) => r.status == 200 && r.body@ == rds_response(
            "DescribeDBClusters"@,
            "<DBClusters>\n      "@ + clusters_xml(vs) + "\n    </DBClusters>"@,
            rid,
        ),
        None => r.status == 404 && r.body@ == rds_error_xml(
            "DBClusterNotFoundFault: DBCluster "@ + p["DBClusterIdentifier"@] + " not found"@,
            rid,
        ),
    }
}

/// `CreateDBSnapshot`: a snapshot of the instance stored and answered, or 400
/// for an unknown instance.
pub open spec fn create_snapshot_handled(
    s0: RdsState,
    s1: RdsState,
    p: Map<Seq<char>, Seq<char>>,
    rid: Seq<char>,
    r: Reply,
) -> bool {
    let sid = param_or(p, "DBSnapshotIdentifier"@, ""@);
    let iid = param_or(p, "DBInstanceIdentifier"@, ""@);
    &&& s1.same_but_snapshots(&s0)
    &&& if s0.instances().contains_key(iid) {
        let sn = s1.snapshots()[sid];
        &&& s1.snapshots() == s0.snapshots().insert(sid, sn)
        &&& sn == taken_snapshot(sid, s0.instances()[iid], sn.snapshot_create_time)
        &&& r.status == 200
        &&& r.body@ == rds_response("CreateDBSnapshot"@, snapshot_xml(sn), rid)
    } else {
        &&& s1.snapshots() == s0.snapshots()
        &&& s1.snapshot_ids() == s0.snapshot_ids()
        &&& r.status == 400
        &&& r.body@ == rds_error_xml("DBInstanceNotFound: DBInstance "@ + iid + " not found"@, rid)
    }
}

/// What handling a request does, by the action it names; any other action is
/// answered 400 and changes nothing.
pub open spec fn rds_handled(s0: RdsState, s1: RdsState, p: Map<Seq<char>, Seq<char>>, rid: Seq<char>, r: Reply) -> bool {
    let a = rds_action(p);
    &&& r.content_type@ == RDS_XML_TYPE@
    &&& if a == "CreateDBInstance"@ {
        create_instance_handled(s0, s1, p, rid, r)
    } else if a == "DescribeDBInstances"@ {
        describe_instances_handled(s0, s1, p, rid, r)
    } else if a == "DeleteDBInstance"@ {
        delete_instance_handled(s0, s1, p, rid, r)
    } else if a == "CreateDBCluster"@ {
        create_cluster_handled(s0, s1, p, rid, r)
    } else if a == "DescribeDBClusters"@ {
        describe_clusters_handled(s0, s1, p, rid, r)
    } else if a == "CreateDBSnapshot"@ {
        create_snapshot_handled(s0, s1, p, rid, r)
    } else {
        &&& unchanged(s0, s1)
        &&& r.status == 400
        &&& r.body@ == rds_error_xml("Unknown Action: "@ + a, rid)
    }
}

/// A parameter, if given.
pub(crate) fn param_opt(p: &Table<String>, k: &str) -> (r: Option<String>)
    requires
        p.wf(),
    ensures
        opt_text(r) == param_text(texts(*p), k@),
{
    match p.get(k) {
        Some(v) => Some(v.clone()),
        None => None,
    }
}

/// A parameter, or a default.
pub(crate) fn param_or_default(p: &Table<String>, k: &str, d: &str) -> (r: String)
    requires
        p.wf(),
    ensures
        r@ == param_or(texts(*p), k@, d@),
{
    match p.get(k) {
        Some(v) => v.clone(),
        None => d.to_owned(),
    }
}

/// Handles `CreateDBInstance`.
fn create_instance_action(state: &mut RdsState, p: &Table<String>, request_id: &str) -> (r: Reply)
    requires
        old(state).wf(),
        p.wf(),
    ensures
        final(state).wf(),
        r.content_type@ == RDS_XML_TYPE@,
        create_instance_handled(*old(state), *final(state), texts(*p), request_id@, r),
{
    let identifier = param_or_default(p, "DBInstanceIdentifier", "");
    let class = param_or_default(p, "DBInstanceClass", "db.t3.micro");
    let engine = param_or_default(p, "Engine", "postgres");
    let version = param_opt(p, "EngineVersion");
    let master = param_or_default(p, "MasterUsername", "postgres");
    let db_name = param_opt(p, "DBName");
    let storage = match p.get("AllocatedStorage") {
        Some(s) => parse_i32(s.as_str()),
        None => None,
    };
    let cluster = param_opt(p, "DBClusterIdentifier");
    let ghost id = identifier@;
    match state.create_db_instance(identifier, class, engine, version, master, db_name, storage, cluster) {
        Ok(inst) => {
            let x = render_db_instance(&inst);
            ok_reply("CreateDBInstance", x.as_str(), request_id)
        },
        Err(e) => {
            let m = e.message();
            render_rds_error(m.as_str(), 400, request_id)
        },
    }
}

/// Handles `DescribeDBInstances`.
fn describe_instances_action(state: &RdsState, p: &Table<String>, request_id: &str) -> (r: Reply)
    requires
        state.wf(),
        p.wf(),
    ensures
        r.content_type@ == RDS_XML_TYPE@,
        describe_instances_handled(*state, *state, texts(*p), request_id@, r),
{
    let id = param_opt(p, "DBInstanceIdentifier");
    let res = match &id {
        Some(s) => state.describe_db_instances(Some(s.as_str())),
        None => state.describe_db_instances(None),
    };
    match res {
        Ok(list) => {
            let mut items = String::new();
            let mut i: usize = 0;
            while i < list.len()
                invariant
                    i <= list@.len(),
                    items@ == instances_xml(instance_views(list@).subrange(0, i as int)),
                decreases list@.len() - i,
            {
                let x = render_db_instance(&list[i]);
                append(&mut items, x.as_str());
                assert(instance_views(list@).subrange(0, i + 1).drop_last() =~= instance_views(list@).subrange(0, i as int));
                i = i + 1;
            }
            assert(instance_views(list@).subrange(0, list@.len() as int) =~= instance_views(list@));
            let mut inner = String::new();
            append(&mut inner, "<DBInstances>\n      ");
            append(&mut inner, items.as_str());
            append(&mut inner, "\n    </DBInstances>");
            ok_reply("DescribeDBInstances", inner.as_str(), request_id)
        },
        Err(e) => {
            let m = e.message();
            render_rds_error(m.as_str(), 404, request_id)
        },
    }
}

/// Handles `DeleteDBInstance`.
fn delete_instance_action(state: &mut RdsState, p: &Table<String>, request_id: &str) -> (r: Reply)
    requires
        old(state).wf(),
        p.wf(),
    ensures
        final(state).wf(),
        r.content_type@ == RDS_XML_TYPE@,
        delete_instance_handled(*old(state), *final(state), texts(*p), request_id@, r),
{
    let identifier = param_or_default(p, "DBInstanceIdentifier", "");
    match state.delete_db_instance(identifier.as_str()) {
        Ok(inst) => {
            let x = render_db_instance(&inst);
            ok_reply("DeleteDBInstance", x.as_str(), request_id)
        },
        Err(e) => {
            let m = e.message();
            render_rds_error(m.as_str(), 404, request_id)
        },
    }
}

/// Handles `CreateDBCluster`.
fn create_cluster_action(state: &mut RdsState, p: &Table<String>, request_id: &str) -> (r: Reply)
    requires
        old(state).wf(),
        p.wf(),
    ensures
        final(state).wf(),
        r.content_type@ == RDS_XML_TYPE@,
        create_cluster_handled(*old(state), *final(state), texts(*p), request_id@, r),
{
    let identifier = param_or_default(p, "DBClusterIdentifier", "");
    let engine = param_or_default(p, "Engine", "aurora-postgresql");
    let version = param_opt(p, "EngineVersion");
    let master = param_or_default(p, "MasterUsername", "postgres");
    let database_name = param_opt(p, "DatabaseName");
    match state.create_db_cluster(identifier, engine, version, master, database_name) {
        Ok(c) => {
            let x = render_db_cluster(&c);
            ok_reply("CreateDBCluster", x.as_str(), request_id)
        },
        Err(e) => {
            let m = e.message();
            render_rds_error(m.as_str(), 400, request_id)
        },
    }
}

/// Handles `DescribeDBClusters`.
fn describe_clusters_action(state: &RdsState, p: &Table<String>, request_id: &str) -> (r: Reply)
    requires
        state.wf(),
        p.wf(),
    ensures
        r.content_type@ == RDS_XML_TYPE@,
        describe_clusters_handled(*state, *state, texts(*p), request_id@, r),
{
    let id = param_opt(p, "DBClusterIdentifier");
    let res = match &id {
        Some(s) => state.describe_db_clusters(Some(s.as_str())),
        None => state.describe_db_clusters(None),
    };
    match res {
        Ok(list) => {
            let mut items = String::new();
            let mut i: usize = 0;
            while i < list.len()
                invariant
                    i <= list@.len(),
                    items@ == clusters_xml(cluster_views(list@).subrange(0, i as int)),
                decreases list@.len() - i,
            {
                let x = render_db_cluster(&list[i]);
                append(&mut items, x.as_str());
                assert(cluster_views(list@).subrange(0, i + 1).drop_last() =~= cluster_views(list@).subrange(0, i as int));
                i = i + 1;
            }
            assert(cluster_views(list@).subrange(0, list@.len() as int) =~= cluster_views(list@));
            let mut inner = String::new();
            append(&mut inner, "<DBClusters>\n      ");
            append(&mut inner, items.as_str());
            append(&mut inner, "\n    </DBClusters>");
            ok_reply("DescribeDBClusters", inner.as_str(), request_id)
        },
        Err(e) => {
            let m = e.message();
            render_rds_error(m.as_str(), 404, request_id)
        },
    }
}

/// Handles `CreateDBSnapshot`.
fn create_snapshot_action(state: &mut RdsState, p: &Table<String>, request_id: &str) -> (r: Reply)
    requires
        old(state).wf(),
        p.wf(),
    ensures
        final(state).wf(),
        r.content_type@ == RDS_XML_TYPE@,
        create_snapshot_handled(*old(state), *final(state), texts(*p), request_id@, r),
{
    let snapshot_id = param_or_default(p, "DBSnapshotIdentifier", "");
    let instance_id = param_or_default(p, "DBInstanceIdentifier", "");
    match state.create_db_snapshot(snapshot_id, instance_id) {
        Ok(sn) => {
            let mut x = String::new();
            append(&mut x, "<DBSnapshot>\n      <DBSnapshotIdentifier>");
            append(&mut x, sn.db_snapshot_identifier.as_str());
            append(&mut x, "</DBSnapshotIdentifier>\n      <DBInstanceIdentifier>");
            append(&mut x, sn.db_instance_identifier.as_str());
            append(&mut x, "</DBInstanceIdentifier>\n      <Engine>");
            append(&mut x, sn.engine.as_str());
            append(&mut x, "</Engine>\n      <AllocatedStorage>");
            append_i64(&mut x, sn.allocated_storage as i64);
            append(&mut x, "</AllocatedStorage>\n      <Status>");
            append(&mut x, sn.status.as_str());
            append(&mut x, "</Status>\n      <MasterUsername>");
            append(&mut x, sn.master_username.as_str());
            append(&mut x, "</MasterUsername>\n    </DBSnapshot>");
            assert(x@ =~= snapshot_xml(sn@));
            ok_reply("CreateDBSnapshot", x.as_str(), request_id)
        },
        Err(e) => {
            let m = e.message();
            render_rds_error(m.as_str(), 400, request_id)
        },
    }
}

/// Handles a request of the query protocol: its parameters are read from the
/// query string and then the form body, and the action they name is done.
pub fn handle_rds_request(state: &mut RdsState, query: Option<&str>, body: &[u8], request_id: &str) -> (r: Reply)
    requires
        old(state).wf(),
    ensures
        final(state).wf(),
        rds_handled(*old(state), *final(state), request_param_map(str_opt(query), body@), request_id@, r),
{
    let p = request_params(query, body);
    let ghost pm = texts(p);
    assert(pm == request_param_map(str_opt(query), body@));
    let action = param_or_default(&p, "Action", "");
    if str_eq(action.as_str(), "CreateDBInstance") {
        create_instance_action(state, &p, request_id)
    } else if str_eq(action.as_str(), "DescribeDBInstances") {
        describe_instances_action(state, &p, request_id)
    } else if str_eq(action.as_str(), "DeleteDBInstance") {
        delete_instance_action(state, &p, request_id)
    } else if str_eq(action.as_str(), "CreateDBCluster") {
        create_cluster_action(state, &p, request_id)
    } else if str_eq(action.as_str(), "DescribeDBClusters") {
        describe_clusters_action(state, &p, request_id)
    } else if str_eq(action.as_str(), "CreateDBSnapshot") {
        create_snapshot_action(state, &p, request_id)
    } else {
        let mut m = String::new();
        append(&mut m, "Unknown Action: ");
        append(&mut m, action.as_str());
        render_rds_error(m.as_str(), 400, request_id)
    }
}

} // verus!
