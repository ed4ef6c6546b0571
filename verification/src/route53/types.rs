//! Hosted zones, record sets, change batches, and the requests and answers of
//! the service.
use vstd::prelude::*;
use crate::ses::state::{copy_opt, opt_text};
use crate::table::Table;

verus! {

/// Settings of a hosted zone given at creation.
#[derive(Debug)]
pub struct HostedZoneConfig {
    pub comment: Option<String>,
    pub private_zone: Option<bool>,
}

impl HostedZoneConfig {
    /// A copy of the settings.
    pub fn copy(&self) -> (r: Self)
        ensures
            opt_text(r.comment) == opt_text(self.comment),
            r.private_zone == self.private_zone,
    {
        HostedZoneConfig { comment: copy_opt(&self.comment), private_zone: self.private_zone }
    }
}

/// A hosted zone as answered.
#[derive(Debug)]
pub struct HostedZone {
    pub id: String,
    pub name: String,
    pub caller_reference: String,
    pub config: Option<HostedZoneConfig>,
    pub resource_record_set_count: Option<i64>,
}

/// The name servers of a zone.
#[derive(Debug)]
pub struct DelegationSet {
    pub name_servers: Vec<String>,
}

/// The state of a change.
#[derive(Debug)]
pub struct ChangeInfo {
    pub id: String,
    pub status: String,
    pub submitted_at: String,
    pub comment: Option<String>,
}

/// One value of a record set.
#[derive(Debug)]
pub struct ResourceRecord {
    pub value: String,
}

impl ResourceRecord {
    /// A copy of the record.
    pub fn copy(&self) -> (r: Self)
        ensures
            r.value@ == self.value@,
    {
        ResourceRecord { value: self.value.clone() }
    }
}

/// A record set: a name, a type and its values.
#[derive(Debug)]
pub struct ResourceRecordSet {
    pub name: String,
    pub record_type: String,
    pub ttl: Option<i64>,
    pub resource_records: Option<Vec<ResourceRecord>>,
    pub set_identifier: Option<String>,
    pub weight: Option<i64>,
}

/// A record set as text.
pub struct RecordSetView {
    pub name: Seq<char>,
    pub record_type: Seq<char>,
    pub ttl: Option<i64>,
    pub resource_records: Option<Seq<Seq<char>>>,
    pub set_identifier: Option<Seq<char>>,
    pub weight: Option<i64>,
}

/// The values of a list of records.
pub open spec fn record_values(v: Seq<ResourceRecord>) -> Seq<Seq<char>> {
    v.map_values(|r: ResourceRecord| r.value@)
}

/// Copies of a list of records.
pub fn copy_records(v: &Vec<ResourceRecord>) -> (r: Vec<ResourceRecord>)
    ensures
        record_values(r@) == record_values(v@),
{
    let mut r: Vec<ResourceRecord> = Vec::new();
    let mut i: usize = 0;
    while i < v.len()
        invariant
            i <= v@.len(),
            record_values(r@) == record_values(v@).subrange(0, i as int),
        decreases v@.len() - i,
    {
        let ghost before = r@;
        r.push(v[i].copy());
        assert(record_values(r@) =~= record_values(before).push(v@[i as int].value@));
        assert(record_values(r@) =~= record_values(v@).subrange(0, i + 1));
        i = i + 1;
    }
    assert(record_values(v@).subrange(0, v@.len() as int) =~= record_values(v@));
    r
}

impl ResourceRecordSet {
    pub open spec fn view(&self) -> RecordSetView {
        RecordSetView {
            name: self.name@,
            record_type: self.record_type@,
            ttl: self.ttl,
            resource_records: match self.resource_records {
                Some(v) => Some(record_values(v@)),
                None => None,
            },
            set_identifier: opt_text(self.set_identifier),
            weight: self.weight,
        }
    }

    /// A copy of the record set.
    pub fn copy(&self) -> (r: Self)
        ensures
            r@ == self@,
    {
        ResourceRecordSet {
            name: self.name.clone(),
            record_type: self.record_type.clone(),
            ttl: self.ttl,
            resource_records: match &self.resource_records {
                Some(v) => Some(copy_records(v)),
                None => None,
            },
            set_identifier: copy_opt(&self.set_identifier),
            weight: self.weight,
        }
    }
}

/// One change of a batch: `CREATE`, `DELETE` or `UPSERT` (in any case) of a
/// record set.
#[derive(Debug)]
pub struct Change {
    pub action: String,
    pub resource_record_set: ResourceRecordSet,
}

/// A batch of changes.
#[derive(Debug)]
pub struct ChangeBatch {
    pub comment: Option<String>,
    pub changes: Vec<Change>,
}

/// A request to create a hosted zone.
#[derive(Debug)]
pub struct CreateHostedZoneRequest {
    pub name: String,
    pub caller_reference: String,
    pub hosted_zone_config: Option<HostedZoneConfig>,
}

/// The answer to creating a hosted zone.
#[derive(Debug)]
pub struct CreateHostedZoneResponse {
    pub hosted_zone: HostedZone,
    pub change_info: ChangeInfo,
    pub delegation_set: DelegationSet,
}

/// The answer to reading a hosted zone.
#[derive(Debug)]
pub struct GetHostedZoneResponse {
    pub hosted_zone: HostedZone,
    pub delegation_set: Option<DelegationSet>,
}

/// The answer to listing hosted zones.
#[derive(Debug)]
pub struct ListHostedZonesResponse {
    pub hosted_zones: Vec<HostedZone>,
    pub marker: Option<String>,
    pub is_truncated: bool,
    pub next_marker: Option<String>,
    pub max_items: Option<i32>,
}

/// A request to change record sets.
#[derive(Debug)]
pub struct ChangeResourceRecordSetsRequest {
    pub change_batch: ChangeBatch,
}

/// The answer to changing record sets.
#[derive(Debug)]
pub struct ChangeResourceRecordSetsResponse {
    pub change_info: ChangeInfo,
}

/// The answer to listing record sets.
#[derive(Debug)]
pub struct ListResourceRecordSetsResponse {
    pub resource_record_sets: Vec<ResourceRecordSet>,
    pub is_truncated: bool,
    pub max_items: Option<i32>,
}

/// A hosted zone as stored: its record sets by name, then by type.
pub struct StoredHostedZone {
    pub id: String,
    pub name: String,
    pub caller_reference: String,
    pub comment: Option<String>,
    pub private_zone: bool,
    pub record_sets: Table<Table<ResourceRecordSet>>,
}

/// A zone as saved: its settings and its record sets, each under its name
/// and type.
#[derive(Debug)]
pub struct ZoneSnapshot {
    pub id: String,
    pub name: String,
    pub caller_reference: String,
    pub comment: Option<String>,
    pub private_zone: bool,
    pub record_sets: Vec<((String, String), ResourceRecordSet)>,
}

/// Everything the service holds: each zone under its id.
#[derive(Debug)]
pub struct Route53StateSnapshot {
    pub hosted_zones: Vec<(String, ZoneSnapshot)>,
}

} // verus!
