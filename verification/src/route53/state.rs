//! The service's state: hosted zones by id, each with its record sets.
use vstd::prelude::*;
use crate::route53::types::{
    copy_records, record_values, Change, ChangeInfo, ChangeResourceRecordSetsRequest,
    ChangeResourceRecordSetsResponse, CreateHostedZoneRequest, CreateHostedZoneResponse, DelegationSet,
    GetHostedZoneResponse, HostedZone, HostedZoneConfig, ListHostedZonesResponse, ListResourceRecordSetsResponse,
    RecordSetView, ResourceRecord, ResourceRecordSet, Route53StateSnapshot, StoredHostedZone, ZoneSnapshot,
};
use crate::runtime::{now_rfc3339, random_u64};
use crate::ses::state::{copy_opt, opt_text};
use crate::table::{lemma_map_values_insert, lemma_map_values_remove, Table};
use crate::text::{append, ends_with, is_prefix, is_suffix, push_char, seq_lt, str_eq, str_lt, strip_prefix,
    trim_start_char, trim_start_matches_char};

verus! {

/// What `str::to_uppercase` gives for a text: its Unicode upper case.
pub uninterp spec fn uppercase_of(s: Seq<char>) -> Seq<char>;

/// std's `str::to_uppercase`. The contract claims only that the result is
/// determined by the text (named by `uppercase_of`); the Unicode case tables
/// themselves are left unstated.
#[verifier::external_body]
pub(crate) fn uppercase(s: &str) -> (r: String)
    ensures
        r@ == uppercase_of(s@),
{
    s.to_uppercase()
}

/// Why a request failed, with its message.
#[derive(Debug)]
pub enum Route53Error {
    NoSuchHostedZone(String),
    HostedZoneAlreadyExists(String),
    InvalidInput(String),
    NoSuchChange(String),
}

impl Route53Error {
    /// The error's text: its kind, a colon and its message.
    pub open spec fn message_spec(&self) -> Seq<char> {
        match self {
            Route53Error::NoSuchHostedZone(m) => "NoSuchHostedZone: "@ + m@,
            Route53Error::HostedZoneAlreadyExists(m) => "HostedZoneAlreadyExists: "@ + m@,
            Route53Error::InvalidInput(m) => "InvalidInput: "@ + m@,
            Route53Error::NoSuchChange(m) => "NoSuchChange: "@ + m@,
        }
    }

    /// The error's text.
    pub fn message(&self) -> (r: String)
        ensures
            r@ == self.message_spec(),
    {
        let mut r = String::new();
        match self {
            Route53Error::NoSuchHostedZone(m) => {
                append(&mut r, "NoSuchHostedZone: ");
                append(&mut r, m.as_str());
            },
            Route53Error::HostedZoneAlreadyExists(m) => {
                append(&mut r, "HostedZoneAlreadyExists: ");
                append(&mut r, m.as_str());
            },
            Route53Error::InvalidInput(m) => {
                append(&mut r, "InvalidInput: ");
                append(&mut r, m.as_str());
            },
            Route53Error::NoSuchChange(m) => {
                append(&mut r, "NoSuchChange: ");
                append(&mut r, m.as_str());
            },
        }
        r
    }

    /// The HTTP status, error type and message an error is answered with:
    /// 404 for what does not exist, 409 for a zone that exists, 400 for bad input.
    pub fn error_parts(&self) -> (r: (u16, &'static str, String))
        ensures
            match self {
                Route53Error::NoSuchHostedZone(m) => r.0 == 404 && r.1@ == "NoSuchHostedZone"@ && r.2@ == m@,
                Route53Error::HostedZoneAlreadyExists(m) => r.0 == 409 && r.1@ == "HostedZoneAlreadyExists"@
                    && r.2@ == m@,
                Route53Error::InvalidInput(m) => r.0 == 400 && r.1@ == "InvalidInput"@ && r.2@ == m@,
                Route53Error::NoSuchChange(m) => r.0 == 404 && r.1@ == "NoSuchChange"@ && r.2@ == m@,
            },
    {
        match self {
            Route53Error::NoSuchHostedZone(m) => (404, "NoSuchHostedZone", m.clone()),
            Route53Error::HostedZoneAlreadyExists(m) => (409, "HostedZoneAlreadyExists", m.clone()),
            Route53Error::InvalidInput(m) => (400, "InvalidInput", m.clone()),
            Route53Error::NoSuchChange(m) => (404, "NoSuchChange", m.clone()),
        }
    }
}

/// `s` with every leading occurrence of `p` removed (std's
/// `str::trim_start_matches` with a string).
pub open spec fn trim_start_str(s: Seq<char>, p: Seq<char>) -> Seq<char>
    decreases s.len(),
{
    if p.len() > 0 && is_prefix(p, s) {
        trim_start_str(s.subrange(p.len() as int, s.len() as int), p)
    } else {
        s
    }
}

/// A zone id as stored: without leading `/hostedzone/` and `/`.
pub open spec fn normalized_zone_id(id: Seq<char>) -> Seq<char> {
    trim_start_char(trim_start_str(id, "/hostedzone/"@), '/')
}

/// A domain name ending in a dot.
pub open spec fn normalized_name(name: Seq<char>) -> Seq<char> {
    if is_suffix("."@, name) { name } else { name + "."@ }
}

/// `s` with every leading `p` removed.
fn trim_start_matches_str(s: &str, p: &str) -> (r: String)
    ensures
        r@ == trim_start_str(s@, p@),
    decreases s@.len(),
{
    if p.is_empty() {
        return s.to_owned();
    }
    match strip_prefix(s, p) {
        Some(t) => trim_start_matches_str(t.as_str(), p),
        None => s.to_owned(),
    }
}

/// A zone id as stored: without leading `/hostedzone/` and `/`.
pub fn normalize_zone_id(zone_id: &str) -> (r: String)
    ensures
        r@ == normalized_zone_id(zone_id@),
{
    let t = trim_start_matches_str(zone_id, "/hostedzone/");
    trim_start_matches_char(t.as_str(), '/')
}

/// A domain name ending in a dot.
pub fn normalize_name(name: &str) -> (r: String)
    ensures
        r@ == normalized_name(name@),
{
    if ends_with(name, ".") {
        name.to_owned()
    } else {
        let mut r = name.to_owned();
        append(&mut r, ".");
        r
    }
}

/// The upper-case hexadecimal digit of `d`.
pub open spec fn hex_digit_upper(d: nat) -> char {
    if d < 10 { (48 + d) as char } else { (55 + d) as char }
}

/// Upper-case hexadecimal rendering of `n`.
pub open spec fn hex_upper(n: nat) -> Seq<char>
    decreases n,
{
    if n < 16 { seq![hex_digit_upper(n)] } else { hex_upper(n / 16).push(hex_digit_upper(n % 16)) }
}

/// `s` with zeros in front up to `width` characters.
pub open spec fn zero_padded(s: Seq<char>, width: nat) -> Seq<char> {
    if s.len() >= width { s } else { Seq::new((width - s.len()) as nat, |i: int| '0') + s }
}

/// What `format!("{:014X}", n)` writes.
pub open spec fn hex14(n: u64) -> Seq<char> {
    zero_padded(hex_upper(n as nat), 14)
}

/// Appends the upper-case hexadecimal rendering of `n`.
fn append_hex_upper(s: &mut String, n: u64)
    ensures
        final(s)@ == old(s)@ + hex_upper(n as nat),
    decreases n,
{
    if n < 16 {
        let c = if n < 10 { ((48 + n) as u8) as char } else { ((55 + n) as u8) as char };
        push_char(s, c);
        assert(seq![c] == hex_upper(n as nat));
    } else {
        append_hex_upper(s, n / 16);
        let d = n % 16;
        let c = if d < 10 { ((48 + d) as u8) as char } else { ((55 + d) as u8) as char };
        push_char(s, c);
        assert(hex_upper(n as nat) == hex_upper((n / 16) as nat).push(c));
    }
}

/// `n` in upper-case hexadecimal, at least 14 digits, zeros in front.
pub fn format_hex14(n: u64) -> (r: String)
    ensures
        r@ == hex14(n),
{
    let mut digits = String::new();
    append_hex_upper(&mut digits, n);
    let len = digits.as_str().unicode_len();
    let mut r = String::new();
    if len < 14 {
        let mut i: usize = 0;
        while i < 14 - len
            invariant
                len < 14,
                i <= 14 - len,
                r@ == Seq::new(i as nat, |j: int| '0'),
            decreases 14 - len - i,
        {
            push_char(&mut r, '0');
            assert(r@ =~= Seq::new((i + 1) as nat, |j: int| '0'));
            i = i + 1;
        }
    }
    append(&mut r, digits.as_str());
    assert(r@ =~= hex14(n));
    r
}

/// The id of a zone made from a random draw.
pub open spec fn zone_id_text(n: u64) -> Seq<char> {
    "Z"@ + hex14(n)
}

/// The id of a change made from a random draw.
pub open spec fn change_id_text(n: u64) -> Seq<char> {
    "/change/C"@ + hex14(n)
}

/// A fresh change id.
fn new_change_id() -> (r: String)
    ensures
        exists|n: u64| r@ == change_id_text(n),
{
    let n = random_u64();
    let mut r = String::new();
    append(&mut r, "/change/C");
    let h = format_hex14(n);
    append(&mut r, h.as_str());
    assert(r@ =~= change_id_text(n));
    r
}

/// The record sets of a zone, keyed by name and type.
pub open spec fn records_of(rs: Table<Table<ResourceRecordSet>>) -> Map<(Seq<char>, Seq<char>), RecordSetView> {
    Map::new(
        |k: (Seq<char>, Seq<char>)| rs@.contains_key(k.0) && rs@[k.0]@.contains_key(k.1),
        |k: (Seq<char>, Seq<char>)| rs@[k.0]@[k.1]@,
    )
}

/// The record sets of the tables `ts`, one table after another, each in type order.
pub open spec fn nested_list(ts: Seq<Table<ResourceRecordSet>>) -> Seq<RecordSetView>
    decreases ts.len(),
{
    if ts.len() == 0 {
        Seq::empty()
    } else {
        nested_list(ts.drop_last()) + ts.last().vals().map_values(|r: ResourceRecordSet| r@)
    }
}

/// The number of record sets in the tables `ts`.
pub open spec fn nested_count(ts: Seq<Table<ResourceRecordSet>>) -> nat
    decreases ts.len(),
{
    if ts.len() == 0 { 0 } else { nested_count(ts.drop_last()) + ts.last().keys().len() }
}

/// A zone as text.
pub struct ZoneView {
    pub id: Seq<char>,
    pub name: Seq<char>,
    pub caller_reference: Seq<char>,
    pub comment: Option<Seq<char>>,
    pub private_zone: bool,
    pub records: Map<(Seq<char>, Seq<char>), RecordSetView>,
}

/// A stored zone as text.
pub open spec fn zone_view(z: StoredHostedZone) -> ZoneView {
    ZoneView {
        id: z.id@,
        name: z.name@,
        caller_reference: z.caller_reference@,
        comment: opt_text(z.comment),
        private_zone: z.private_zone,
        records: records_of(z.record_sets),
    }
}

/// The record tables of a zone are well formed.
pub open spec fn zone_wf(z: StoredHostedZone) -> bool {
    &&& z.record_sets.wf()
    &&& forall|n: Seq<char>| #[trigger] z.record_sets@.contains_key(n) ==> z.record_sets@[n].wf()
}

/// A hosted zone as answered: `/hostedzone/` and the id, the settings, and the
/// number of record sets.
pub struct HostedZoneView {
    pub id: Seq<char>,
    pub name: Seq<char>,
    pub caller_reference: Seq<char>,
    pub comment: Option<Seq<char>>,
    pub private_zone: Option<bool>,
    pub has_config: bool,
    pub resource_record_set_count: Option<i64>,
}

impl HostedZone {
    pub open spec fn view(&self) -> HostedZoneView {
        HostedZoneView {
            id: self.id@,
            name: self.name@,
            caller_reference: self.caller_reference@,
            comment: match self.config { Some(c) => opt_text(c.comment), None => None },
            private_zone: match self.config { Some(c) => c.private_zone, None => None },
            has_config: self.config is Some,
            resource_record_set_count: self.resource_record_set_count,
        }
    }
}

/// A count as an `i64`, at most its largest value.
pub open spec fn count_i64(n: nat) -> i64 {
    if n <= i64::MAX { n as i64 } else { i64::MAX }
}

/// How a stored zone is answered.
pub open spec fn answered_zone(z: StoredHostedZone) -> HostedZoneView {
    HostedZoneView {
        id: "/hostedzone/"@ + z.id@,
        name: z.name@,
        caller_reference: z.caller_reference@,
        comment: opt_text(z.comment),
        private_zone: Some(z.private_zone),
        has_config: true,
        resource_record_set_count: Some(count_i64(nested_count(z.record_sets.vals()))),
    }
}

/// The two name servers every zone is delegated to.
pub open spec fn name_servers() -> Seq<Seq<char>> {
    seq!["ns-1.awsdns.com."@, "ns-2.awsdns.net."@]
}

/// The service's state.
pub struct Route53State {
    account_id: String,
    region: String,
    hosted_zones: Table<StoredHostedZone>,
}

impl Route53State {
    /// The zones, by id.
    pub closed spec fn zones(&self) -> Map<Seq<char>, ZoneView> {
        self.hosted_zones@.map_values(|z: StoredHostedZone| zone_view(z))
    }

    /// The zone ids, in ascending order.
    pub closed spec fn zone_ids(&self) -> Seq<Seq<char>> {
        self.hosted_zones.keys()
    }

    /// The account the state answers for.
    pub closed spec fn account(&self) -> Seq<char> {
        self.account_id@
    }

    /// The region the state answers for.
    pub closed spec fn home_region(&self) -> Seq<char> {
        self.region@
    }

    /// The account the state answers for.
    pub fn account_id(&self) -> (r: &str)
        ensures
            r@ == self.account(),
    {
        self.account_id.as_str()
    }

    /// The region the state answers for.
    pub fn region(&self) -> (r: &str)
        ensures
            r@ == self.home_region(),
    {
        self.region.as_str()
    }

    /// The zone table and the record tables are well formed.
    pub closed spec fn wf(&self) -> bool {
        &&& self.hosted_zones.wf()
        &&& forall|k: Seq<char>| #[trigger] self.hosted_zones@.contains_key(k) ==> zone_wf(self.hosted_zones@[k])
    }

    /// How the zone `id` is answered: `/hostedzone/` and its id, its name,
    /// reference and settings, and its number of record sets.
    pub closed spec fn answered(&self, id: Seq<char>) -> HostedZoneView {
        answered_zone(self.hosted_zones@[id])
    }

    /// The zones in id order, as answered.
    pub open spec fn answered_list(&self) -> Seq<HostedZoneView> {
        Seq::new(self.zone_ids().len(), |i: int| self.answered(self.zone_ids()[i]))
    }

    /// An answered zone shows the zone's id, name, reference and settings.
    pub proof fn lemma_answered(&self, id: Seq<char>)
        requires
            self.zones().contains_key(id),
        ensures
            self.answered(id).id == "/hostedzone/"@ + self.zones()[id].id,
            self.answered(id).name == self.zones()[id].name,
            self.answered(id).caller_reference == self.zones()[id].caller_reference,
            self.answered(id).comment == self.zones()[id].comment,
            self.answered(id).private_zone == Some(self.zones()[id].private_zone),
    {
    }

    /// An empty state.
    pub fn new(account_id: String, region: String) -> (s: Self)
        ensures
            s.wf(),
            s.zones() == Map::<Seq<char>, ZoneView>::empty(),
            s.account() == account_id@,
            s.home_region() == region@,
    {
        let s = Route53State { account_id, region, hosted_zones: Table::new() };
        assert(s.zones() =~= Map::<Seq<char>, ZoneView>::empty());
        s
    }

    /// Removes every zone.
    pub fn reset(&mut self)
        requires
            old(self).wf(),
        ensures
            final(self).wf(),
            final(self).zones() == Map::<Seq<char>, ZoneView>::empty(),
    {
        self.hosted_zones.clear();
        assert(self.zones() =~= Map::<Seq<char>, ZoneView>::empty());
    }
}

/// The number of record sets of a zone, as an `i64`.
fn zone_record_count(z: &StoredHostedZone) -> (r: i64)
    requires
        zone_wf(*z),
    ensures
        r == count_i64(nested_count(z.record_sets.vals())),
{
    let n = z.record_sets.len();
    proof { z.record_sets.lemma_wf(); }
    let mut total: u64 = 0;
    let mut i: usize = 0;
    while i < n
        invariant
            zone_wf(*z),
            n == z.record_sets.vals().len(),
            i <= n,
            total == (if nested_count(z.record_sets.vals().subrange(0, i as int)) <= u64::MAX {
                nested_count(z.record_sets.vals().subrange(0, i as int))
            } else {
                u64::MAX as nat
            }),
        decreases n - i,
    {
        proof { z.record_sets.lemma_wf(); }
        let (k, inner) = z.record_sets.entry(i);
        proof {
            z.record_sets.lemma_wf();
            assert(z.record_sets@.contains_key(z.record_sets.keys()[i as int]));
            assert(z.record_sets.vals().subrange(0, i + 1).drop_last() =~= z.record_sets.vals().subrange(0, i as int));
        }
        let m = inner.len();
        total = if total > u64::MAX - (m as u64) { u64::MAX } else { total + m as u64 };
        i = i + 1;
    }
    assert(z.record_sets.vals().subrange(0, n as int) =~= z.record_sets.vals());
    if total > i64::MAX as u64 { i64::MAX } else { total as i64 }
}

/// The NS record set every new zone starts with.
pub open spec fn ns_record(name: Seq<char>) -> RecordSetView {
    RecordSetView {
        name: name,
        record_type: "NS"@,
        ttl: Some(172800),
        resource_records: Some(name_servers()),
        set_identifier: None,
        weight: None,
    }
}

/// The message of a missing zone.
pub open spec fn no_zone_message(zone_id: Seq<char>) -> Seq<char> {
    "No hosted zone found with ID: "@ + zone_id
}

/// The two name servers, as a list.
fn name_server_list() -> (r: Vec<String>)
    ensures
        crate::text::views(r@) == name_servers(),
{
    let r: Vec<String> = vec!["ns-1.awsdns.com.".to_owned(), "ns-2.awsdns.net.".to_owned()];
    assert(crate::text::views(r@) =~= name_servers());
    r
}

/// The error of a missing zone.
fn no_zone(zone_id: &str) -> (e: Route53Error)
    ensures
        e matches Route53Error::NoSuchHostedZone(m) && m@ == no_zone_message(zone_id@),
{
    let mut m = String::new();
    append(&mut m, "No hosted zone found with ID: ");
    append(&mut m, zone_id);
    Route53Error::NoSuchHostedZone(m)
}

impl Route53State {
    /// Creates a zone under a fresh random id, with its NS record set (the
    /// count it answers is that of the record sets it stores); the name gets a
    /// final dot. It never fails.
    pub fn create_hosted_zone(&mut self, req: CreateHostedZoneRequest) -> (r: Result<CreateHostedZoneResponse, Route53Error>)
        requires
            old(self).wf(),
        ensures
            final(self).wf(),
            final(self).account() == old(self).account(),
            final(self).home_region() == old(self).home_region(),
            r matches Ok(resp) && exists|n: u64| #![trigger zone_id_text(n)] {
                let id = zone_id_text(n);
                let name = normalized_name(req.name@);
                &&& final(self).zones() == old(self).zones().insert(id, ZoneView {
                    id: id,
                    name: name,
                    caller_reference: req.caller_reference@,
                    comment: match req.hosted_zone_config { Some(c) => opt_text(c.comment), None => None },
                    private_zone: match req.hosted_zone_config {
                        Some(c) => match c.private_zone { Some(p) => p, None => false },
                        None => false,
                    },
                    records: map![(name, "NS"@) => ns_record(name)],
                })
                &&& resp.hosted_zone@.id == "/hostedzone/"@ + id
                &&& resp.hosted_zone@.name == name
                &&& resp.hosted_zone@.caller_reference == req.caller_reference@
                &&& resp.hosted_zone@.has_config == req.hosted_zone_config is Some
                &&& resp.hosted_zone@.comment == match req.hosted_zone_config { Some(c) => opt_text(c.comment), None => None }
                &&& resp.hosted_zone@.private_zone == match req.hosted_zone_config { Some(c) => c.private_zone, None => None }
                &&& resp.hosted_zone@.resource_record_set_count == Some(1i64)
            },
            r matches Ok(resp) && resp.change_info.status@ == "INSYNC"@ && resp.change_info.comment is None
                && (exists|n: u64| resp.change_info.id@ == change_id_text(n))
                && crate::text::views(resp.delegation_set.name_servers@) == name_servers(),
    {
        let ghost s0 = *self;
        let zone_name = normalize_name(req.name.as_str());
        let n = random_u64();
        let mut zone_id = String::new();
        append(&mut zone_id, "Z");
        let h = format_hex14(n);
        append(&mut zone_id, h.as_str());
        assert(zone_id@ =~= zone_id_text(n));
        let change_id = new_change_id();
        let now = now_rfc3339();
        let ns_records: Vec<ResourceRecord> = vec![
            ResourceRecord { value: "ns-1.awsdns.com.".to_owned() },
            ResourceRecord { value: "ns-2.awsdns.net.".to_owned() },
        ];
        assert(record_values(ns_records@) =~= name_servers());
        let ns = ResourceRecordSet {
            name: zone_name.clone(),
            record_type: "NS".to_owned(),
            ttl: Some(172800),
            resource_records: Some(ns_records),
            set_identifier: None,
            weight: None,
        };
        let mut inner: Table<ResourceRecordSet> = Table::new();
        inner.insert("NS".to_owned(), ns);
        let mut record_sets: Table<Table<ResourceRecordSet>> = Table::new();
        let ghost gi = inner;
        record_sets.insert(zone_name.clone(), inner);
        let (comment, private_zone) = match &req.hosted_zone_config {
            Some(c) => (copy_opt(&c.comment), match c.private_zone { Some(p) => p, None => false }),
            None => (None, false),
        };
        let stored = StoredHostedZone {
            id: zone_id.clone(),
            name: zone_name.clone(),
            caller_reference: req.caller_reference.clone(),
            comment,
            private_zone,
            record_sets,
        };
        proof {
            assert(records_of(stored.record_sets) =~= map![(zone_name@, "NS"@) => ns_record(zone_name@)]);
        }
        let ghost gs = stored;
        self.hosted_zones.insert(zone_id.clone(), stored);
        proof {
            lemma_map_values_insert(s0.hosted_zones@, zone_id@, gs, |z: StoredHostedZone| zone_view(z));
            assert forall|k: Seq<char>| #[trigger] self.hosted_zones@.contains_key(k) implies zone_wf(self.hosted_zones@[k]) by {
                if k != zone_id@ {
                    assert(s0.hosted_zones@.contains_key(k));
                }
            }
        }
        let mut hz_id = String::new();
        append(&mut hz_id, "/hostedzone/");
        append(&mut hz_id, zone_id.as_str());
        let resp = CreateHostedZoneResponse {
            hosted_zone: HostedZone {
                id: hz_id,
                name: zone_name,
                caller_reference: req.caller_reference,
                config: req.hosted_zone_config,
                resource_record_set_count: Some(1),
            },
            change_info: ChangeInfo { id: change_id, status: "INSYNC".to_owned(), submitted_at: now, comment: None },
            delegation_set: DelegationSet { name_servers: name_server_list() },
        };
        Ok(resp)
    }

    /// A zone by id (with or without its `/hostedzone/` prefix), as answered,
    /// with the name servers.
    pub fn get_hosted_zone(&self, zone_id: &str) -> (r: Result<GetHostedZoneResponse, Route53Error>)
        requires
            self.wf(),
        ensures
            match r {
                Ok(resp) => {
                    &&& self.zones().contains_key(normalized_zone_id(zone_id@))
                    &&& resp.hosted_zone@ == self.answered(normalized_zone_id(zone_id@))
                    &&& resp.delegation_set matches Some(d) && crate::text::views(d.name_servers@) == name_servers()
                },
                Err(e) => !self.zones().contains_key(normalized_zone_id(zone_id@))
                    && (e matches Route53Error::NoSuchHostedZone(m) && m@ == no_zone_message(zone_id@)),
            },
    {
        let norm = normalize_zone_id(zone_id);
        match self.hosted_zones.get(norm.as_str()) {
            None => Err(no_zone(zone_id)),
            Some(z) => {
                proof { assert(zone_wf(*z)); }
                Ok(GetHostedZoneResponse {
                    hosted_zone: answer_zone(z),
                    delegation_set: Some(DelegationSet { name_servers: name_server_list() }),
                })
            },
        }
    }

    /// Deletes a zone by id (with or without its `/hostedzone/` prefix).
    pub fn delete_hosted_zone(&mut self, zone_id: &str) -> (r: Result<ChangeInfo, Route53Error>)
        requires
            old(self).wf(),
        ensures
            final(self).wf(),
            final(self).account() == old(self).account(),
            final(self).home_region() == old(self).home_region(),
            match r {
                Ok(c) => {
                    &&& old(self).zones().contains_key(normalized_zone_id(zone_id@))
                    &&& final(self).zones() == old(self).zones().remove(normalized_zone_id(zone_id@))
                    &&& c.status@ == "INSYNC"@ && c.comment is None
                    &&& exists|n: u64| c.id@ == change_id_text(n)
                },
                Err(e) => !old(self).zones().contains_key(normalized_zone_id(zone_id@))
                    && final(self).zones() == old(self).zones()
                    && (e matches Route53Error::NoSuchHostedZone(m) && m@ == no_zone_message(zone_id@)),
            },
    {
        let ghost s0 = *self;
        let norm = normalize_zone_id(zone_id);
        if !self.hosted_zones.contains(norm.as_str()) {
            return Err(no_zone(zone_id));
        }
        let _ = self.hosted_zones.remove(norm.as_str());
        proof {
            lemma_map_values_remove(s0.hosted_zones@, norm@, |z: StoredHostedZone| zone_view(z));
            assert forall|k: Seq<char>| #[trigger] self.hosted_zones@.contains_key(k) implies zone_wf(self.hosted_zones@[k]) by {
                assert(s0.hosted_zones@.contains_key(k));
            }
        }
        Ok(ChangeInfo { id: new_change_id(), status: "INSYNC".to_owned(), submitted_at: now_rfc3339(), comment: None })
    }

    /// The record sets of a zone, by name and then type.
    pub fn list_resource_record_sets(&self, zone_id: &str) -> (r: Result<ListResourceRecordSetsResponse, Route53Error>)
        requires
            self.wf(),
        ensures
            match r {
                Ok(resp) => {
                    &&& self.zones().contains_key(normalized_zone_id(zone_id@))
                    &&& resp.resource_record_sets@.map_values(|x: ResourceRecordSet| x@)
                        == self.record_list(normalized_zone_id(zone_id@))
                    &&& !resp.is_truncated && resp.max_items == Some(100i32)
                },
                Err(e) => !self.zones().contains_key(normalized_zone_id(zone_id@))
                    && (e matches Route53Error::NoSuchHostedZone(m) && m@ == no_zone_message(zone_id@)),
            },
    {
        let norm = normalize_zone_id(zone_id);
        match self.hosted_zones.get(norm.as_str()) {
            None => Err(no_zone(zone_id)),
            Some(z) => {
                proof { assert(zone_wf(*z)); }
                let list = record_copies(&z.record_sets);
                Ok(ListResourceRecordSetsResponse { resource_record_sets: list, is_truncated: false, max_items: Some(100) })
            },
        }
    }

    /// The record sets of the zone `id`, by name and then type.
    pub closed spec fn record_list(&self, id: Seq<char>) -> Seq<RecordSetView> {
        nested_list(self.hosted_zones@[id].record_sets.vals())
    }
}

/// How a stored zone is answered.
fn answer_zone(z: &StoredHostedZone) -> (r: HostedZone)
    requires
        zone_wf(*z),
    ensures
        r@ == answered_zone(*z),
{
    let mut id = String::new();
    append(&mut id, "/hostedzone/");
    append(&mut id, z.id.as_str());
    HostedZone {
        id,
        name: z.name.clone(),
        caller_reference: z.caller_reference.clone(),
        config: Some(HostedZoneConfig { comment: copy_opt(&z.comment), private_zone: Some(z.private_zone) }),
        resource_record_set_count: Some(zone_record_count(z)),
    }
}

/// Copies of the record sets of a zone, by name and then type.
fn record_copies(rs: &Table<Table<ResourceRecordSet>>) -> (r: Vec<ResourceRecordSet>)
    requires
        rs.wf(),
        forall|n: Seq<char>| #[trigger] rs@.contains_key(n) ==> rs@[n].wf(),
    ensures
        r@.map_values(|x: ResourceRecordSet| x@) == nested_list(rs.vals()),
{
    let n = rs.len();
    proof { rs.lemma_wf(); }
    let mut out: Vec<ResourceRecordSet> = Vec::new();
    let mut i: usize = 0;
    while i < n
        invariant
            rs.wf(),
            forall|n: Seq<char>| #[trigger] rs@.contains_key(n) ==> rs@[n].wf(),
            n == rs.vals().len(),
            i <= n,
            out@.map_values(|x: ResourceRecordSet| x@) == nested_list(rs.vals().subrange(0, i as int)),
        decreases n - i,
    {
        proof { rs.lemma_wf(); }
        let (_, inner) = rs.entry(i);
        proof {
            assert(rs@.contains_key(rs.keys()[i as int]));
            assert(inner.wf());
            inner.lemma_wf();
            assert(rs.vals().subrange(0, i + 1).drop_last() =~= rs.vals().subrange(0, i as int));
        }
        let ghost head = out@.map_values(|x: ResourceRecordSet| x@);
        let m = inner.len();
        let mut j: usize = 0;
        while j < m
            invariant
                inner.wf(),
                m == inner.vals().len(),
                j <= m,
                out@.map_values(|x: ResourceRecordSet| x@) == head + inner.vals().map_values(|x: ResourceRecordSet| x@).subrange(0, j as int),
            decreases m - j,
        {
            proof { inner.lemma_wf(); }
            let (_, rec) = inner.entry(j);
            let ghost before = out@;
            out.push(rec.copy());
            assert(out@.map_values(|x: ResourceRecordSet| x@) =~= before.map_values(|x: ResourceRecordSet| x@).push(rec@));
            assert(out@.map_values(|x: ResourceRecordSet| x@) =~= head + inner.vals().map_values(|x: ResourceRecordSet| x@).subrange(0, j + 1));
            j = j + 1;
        }
        assert(inner.vals().map_values(|x: ResourceRecordSet| x@).subrange(0, m as int) =~= inner.vals().map_values(|x: ResourceRecordSet| x@));
        i = i + 1;
    }
    assert(rs.vals().subrange(0, n as int) =~= rs.vals());
    out
}

/// The name and type a change concerns: the name with a final dot, the type in
/// upper case.
pub open spec fn change_key(c: Change) -> (Seq<char>, Seq<char>) {
    (normalized_name(c.resource_record_set.name@), uppercase_of(c.resource_record_set.record_type@))
}

/// Record sets after one change: `CREATE` and `UPSERT` (in any case) store the
/// record set under its normalised name and type, `DELETE` removes what is
/// there, anything else changes nothing.
pub open spec fn applied_change(rs: Map<(Seq<char>, Seq<char>), RecordSetView>, c: Change) -> Map<(Seq<char>, Seq<char>), RecordSetView> {
    let k = change_key(c);
    let a = uppercase_of(c.action@);
    if a == "CREATE"@ || a == "UPSERT"@ {
        rs.insert(k, RecordSetView { name: k.0, record_type: k.1, ..c.resource_record_set@ })
    } else if a == "DELETE"@ {
        rs.remove(k)
    } else {
        rs
    }
}

/// Record sets after a batch of changes, in order.
pub open spec fn applied_changes(rs: Map<(Seq<char>, Seq<char>), RecordSetView>, cs: Seq<Change>) -> Map<(Seq<char>, Seq<char>), RecordSetView>
    decreases cs.len(),
{
    if cs.len() == 0 { rs } else { applied_change(applied_changes(rs, cs.drop_last()), cs.last()) }
}

/// The record tables are well formed.
pub open spec fn records_wf(rs: Table<Table<ResourceRecordSet>>) -> bool {
    &&& rs.wf()
    &&& forall|n: Seq<char>| #[trigger] rs@.contains_key(n) ==> rs@[n].wf()
}

/// Applies one change to the record tables of a zone.
fn apply_change(rs: &mut Table<Table<ResourceRecordSet>>, c: &Change)
    requires
        records_wf(*old(rs)),
    ensures
        records_wf(*final(rs)),
        records_of(*final(rs)) == applied_change(records_of(*old(rs)), *c),
{
    let ghost r0 = *rs;
    let name = normalize_name(c.resource_record_set.name.as_str());
    let rtype = uppercase(c.resource_record_set.record_type.as_str());
    let action = uppercase(c.action.as_str());
    let ghost k = (name@, rtype@);
    if str_eq(action.as_str(), "CREATE") || str_eq(action.as_str(), "UPSERT") {
        let mut record = c.resource_record_set.copy();
        record.name = name.clone();
        record.record_type = rtype.clone();
        let ghost grec = record;
        let mut inner = match rs.remove(name.as_str()) {
            Some(t) => t,
            None => Table::new(),
        };
        let ghost i0 = inner;
        inner.insert(rtype, record);
        let ghost gi = inner;
        rs.insert(name, inner);
        proof {
            assert forall|n: Seq<char>| #[trigger] rs@.contains_key(n) implies rs@[n].wf() by {
                if n != k.0 {
                    assert(r0@.contains_key(n));
                }
            }
            assert forall|x: (Seq<char>, Seq<char>)| #[trigger] records_of(*rs).contains_key(x) <==> applied_change(records_of(r0), *c).contains_key(x) by {
                if x.0 == k.0 && r0@.contains_key(k.0) {
                    assert(i0 == r0@[k.0]);
                }
            }
            assert(records_of(*rs) =~= applied_change(records_of(r0), *c));
        }
    } else if str_eq(action.as_str(), "DELETE") {
        if rs.contains(name.as_str()) {
            match rs.remove(name.as_str()) {
                Some(mut inner) => {
                    let ghost i0 = inner;
                    let _ = inner.remove(rtype.as_str());
                    rs.insert(name, inner);
                    proof {
                        assert(i0 == r0@[k.0]);
                        assert forall|n: Seq<char>| #[trigger] rs@.contains_key(n) implies rs@[n].wf() by {
                            if n != k.0 {
                                assert(r0@.contains_key(n));
                            }
                        }
                        assert(records_of(*rs) =~= applied_change(records_of(r0), *c));
                    }
                },
                None => {},
            }
        } else {
            proof {
                assert(records_of(*rs) =~= applied_change(records_of(r0), *c));
            }
        }
    } else {
    }
}

impl Route53State {
    /// Applies a batch of changes, in order, to a zone's record sets.
    pub fn change_resource_record_sets(&mut self, zone_id: &str, req: ChangeResourceRecordSetsRequest) -> (r: Result<
        ChangeResourceRecordSetsResponse,
        Route53Error,
    >)
        requires
            old(self).wf(),
        ensures
            final(self).wf(),
            final(self).account() == old(self).account(),
            final(self).home_region() == old(self).home_region(),
            match r {
                Ok(resp) => {
                    let id = normalized_zone_id(zone_id@);
                    let z = old(self).zones()[id];
                    &&& old(self).zones().contains_key(id)
                    &&& final(self).zones() == old(self).zones().insert(id, ZoneView {
                        records: applied_changes(z.records, req.change_batch.changes@),
                        ..z
                    })
                    &&& resp.change_info.status@ == "INSYNC"@
                    &&& opt_text(resp.change_info.comment) == opt_text(req.change_batch.comment)
                    &&& exists|n: u64| resp.change_info.id@ == change_id_text(n)
                },
                Err(e) => !old(self).zones().contains_key(normalized_zone_id(zone_id@))
                    && final(self).zones() == old(self).zones()
                    && (e matches Route53Error::NoSuchHostedZone(m) && m@ == no_zone_message(zone_id@)),
            },
    {
        let ghost s0 = *self;
        let norm = normalize_zone_id(zone_id);
        if !self.hosted_zones.contains(norm.as_str()) {
            return Err(no_zone(zone_id));
        }
        let mut zone = match self.hosted_zones.remove(norm.as_str()) {
            Some(z) => z,
            None => {
                return Err(no_zone(zone_id));
            },
        };
        let ghost z0 = zone;
        proof {
            assert(zone_wf(z0));
        }
        let changes = &req.change_batch.changes;
        let mut i: usize = 0;
        while i < changes.len()
            invariant
                i <= changes@.len(),
                records_wf(zone.record_sets),
                zone.id == z0.id,
                zone.name == z0.name,
                zone.caller_reference == z0.caller_reference,
                zone.comment == z0.comment,
                zone.private_zone == z0.private_zone,
                records_of(zone.record_sets) == applied_changes(records_of(z0.record_sets), changes@.subrange(0, i as int)),
            decreases changes@.len() - i,
        {
            apply_change(&mut zone.record_sets, &changes[i]);
            assert(changes@.subrange(0, i + 1).drop_last() =~= changes@.subrange(0, i as int));
            i = i + 1;
        }
        assert(changes@.subrange(0, changes@.len() as int) =~= changes@);
        let ghost gz = zone;
        self.hosted_zones.insert(norm.clone(), zone);
        proof {
            lemma_map_values_insert(s0.hosted_zones@.remove(norm@), norm@, gz, |z: StoredHostedZone| zone_view(z));
            lemma_map_values_remove(s0.hosted_zones@, norm@, |z: StoredHostedZone| zone_view(z));
            assert(s0.hosted_zones@.remove(norm@).insert(norm@, gz) =~= s0.hosted_zones@.insert(norm@, gz));
            assert forall|k: Seq<char>| #[trigger] self.hosted_zones@.contains_key(k) implies zone_wf(self.hosted_zones@[k]) by {
                if k != norm@ {
                    assert(s0.hosted_zones@.contains_key(k));
                }
            }
            assert(zone_view(gz) == ZoneView { records: applied_changes(zone_view(z0).records, req.change_batch.changes@), ..zone_view(z0) });
        }
        Ok(ChangeResourceRecordSetsResponse {
            change_info: ChangeInfo {
                id: new_change_id(),
                status: "INSYNC".to_owned(),
                submitted_at: now_rfc3339(),
                comment: copy_opt(&req.change_batch.comment),
            },
        })
    }
}

/// Where a zone named `name` goes in `s`: before the first with a greater name.
pub open spec fn name_pos(s: Seq<HostedZoneView>, name: Seq<char>) -> int
    decreases s.len(),
{
    if s.len() == 0 {
        0
    } else if seq_lt(name, s[0].name) {
        0
    } else {
        1 + name_pos(s.drop_first(), name)
    }
}

/// Zones sorted by name, those of equal name kept in their order.
pub open spec fn sorted_by_name(zs: Seq<HostedZoneView>) -> Seq<HostedZoneView>
    decreases zs.len(),
{
    if zs.len() == 0 {
        Seq::empty()
    } else {
        let s = sorted_by_name(zs.drop_last());
        s.insert(name_pos(s, zs.last().name), zs.last())
    }
}

/// `name_pos` lies within the sequence.
pub proof fn lemma_name_pos_bound(s: Seq<HostedZoneView>, name: Seq<char>)
    ensures
        0 <= name_pos(s, name) <= s.len(),
    decreases s.len(),
{
    if s.len() > 0 && !seq_lt(name, s[0].name) {
        lemma_name_pos_bound(s.drop_first(), name);
    }
}

/// The views of a list of answered zones.
pub open spec fn zone_views(v: Seq<HostedZone>) -> Seq<HostedZoneView> {
    v.map_values(|z: HostedZone| z@)
}

/// Where a zone named `name` goes in `v`.
fn name_position(v: &Vec<HostedZone>, name: &str) -> (r: usize)
    ensures
        r == name_pos(zone_views(v@), name@),
{
    let ghost zv = zone_views(v@);
    let mut i: usize = 0;
    assert(zv.subrange(0, zv.len() as int) =~= zv);
    while i < v.len() && !str_lt(name, v[i].name.as_str())
        invariant
            zv == zone_views(v@),
            i <= v@.len(),
            name_pos(zv, name@) == i + name_pos(zv.subrange(i as int, zv.len() as int), name@),
        decreases v@.len() - i,
    {
        let ghost rest = zv.subrange(i as int, zv.len() as int);
        assert(rest.drop_first() =~= zv.subrange(i + 1, zv.len() as int));
        i = i + 1;
    }
    proof {
        if i < v@.len() {
            assert(zv.subrange(i as int, zv.len() as int)[0] == zv[i as int]);
        }
    }
    i
}

impl Route53State {
    /// All zones as answered, sorted by name (those of equal name in id order).
    pub fn list_hosted_zones(&self) -> (r: Result<ListHostedZonesResponse, Route53Error>)
        requires
            self.wf(),
        ensures
            r matches Ok(resp) && zone_views(resp.hosted_zones@) == sorted_by_name(self.answered_list())
                && resp.marker is None && !resp.is_truncated && resp.next_marker is None
                && resp.max_items == Some(100i32),
    {
        let n = self.hosted_zones.len();
        proof { self.hosted_zones.lemma_wf(); }
        let ghost al = self.answered_list();
        let mut list: Vec<HostedZone> = Vec::new();
        let mut i: usize = 0;
        while i < n
            invariant
                self.wf(),
                al == self.answered_list(),
                n == self.zone_ids().len(),
                i <= n,
                zone_views(list@) == sorted_by_name(al.subrange(0, i as int)),
            decreases n - i,
        {
            proof { self.hosted_zones.lemma_wf(); }
            let (_, z) = self.hosted_zones.entry(i);
            proof {
                assert(self.hosted_zones@.contains_key(self.hosted_zones.keys()[i as int]));
                assert(zone_wf(*z));
            }
            let hz = answer_zone(z);
            assert(hz@ == al[i as int]);
            let pos = name_position(&list, hz.name.as_str());
            proof { lemma_name_pos_bound(zone_views(list@), hz@.name); }
            let ghost before = list@;
            list.insert(pos, hz);
            assert(al.subrange(0, i + 1).drop_last() =~= al.subrange(0, i as int));
            assert(zone_views(list@) =~= zone_views(before).insert(pos as int, al[i as int]));
            i = i + 1;
        }
        assert(al.subrange(0, n as int) =~= al);
        Ok(ListHostedZonesResponse {
            hosted_zones: list,
            marker: None,
            is_truncated: false,
            next_marker: None,
            max_items: Some(100),
        })
    }
}

/// Record sets listed under their names and types, put into a map in order (a
/// later one replacing an earlier one under the same name and type).
pub open spec fn pairs_to_records(ps: Seq<((String, String), ResourceRecordSet)>) -> Map<(Seq<char>, Seq<char>), RecordSetView>
    decreases ps.len(),
{
    if ps.len() == 0 {
        Map::empty()
    } else {
        pairs_to_records(ps.drop_last()).insert((ps.last().0.0@, ps.last().0.1@), ps.last().1@)
    }
}

/// A saved zone as text.
pub open spec fn snapshot_zone_view(z: ZoneSnapshot) -> ZoneView {
    ZoneView {
        id: z.id@,
        name: z.name@,
        caller_reference: z.caller_reference@,
        comment: opt_text(z.comment),
        private_zone: z.private_zone,
        records: pairs_to_records(z.record_sets@),
    }
}

/// Saved zones put into a map under their keys, in order.
pub open spec fn snapshot_zones(zs: Seq<(String, ZoneSnapshot)>) -> Map<Seq<char>, ZoneView>
    decreases zs.len(),
{
    if zs.len() == 0 {
        Map::empty()
    } else {
        snapshot_zones(zs.drop_last()).insert(zs.last().0@, snapshot_zone_view(zs.last().1))
    }
}

/// Saves the record sets of a zone, by name and then type.
fn save_records(rs: &Table<Table<ResourceRecordSet>>) -> (r: Vec<((String, String), ResourceRecordSet)>)
    requires
        records_wf(*rs),
    ensures
        pairs_to_records(r@) == records_of(*rs),
{
    let n = rs.len();
    proof { rs.lemma_wf(); }
    let mut out: Vec<((String, String), ResourceRecordSet)> = Vec::new();
    let mut i: usize = 0;
    while i < n
        invariant
            records_wf(*rs),
            n == rs.keys().len(),
            i <= n,
            pairs_to_records(out@) == records_of(*rs).restrict(
                Set::new(|k: (Seq<char>, Seq<char>)| exists|j: int| 0 <= j < i && rs.keys()[j] == k.0),
            ),
        decreases n - i,
    {
        proof { rs.lemma_wf(); }
        let (name, inner) = rs.entry(i);
        proof {
            assert(rs@.contains_key(rs.keys()[i as int]));
            assert(inner.wf());
            inner.lemma_wf();
        }
        let ghost head = pairs_to_records(out@);
        let m = inner.len();
        let mut j: usize = 0;
        while j < m
            invariant
                records_wf(*rs),
                inner.wf(),
                *inner == rs@[name@],
                rs@.contains_key(name@),
                m == inner.keys().len(),
                j <= m,
                pairs_to_records(out@) == head.union_prefer_right(
                    records_of(*rs).restrict(Set::new(|k: (Seq<char>, Seq<char>)| k.0 == name@ && exists|q: int| 0 <= q < j && inner.keys()[q] == k.1)),
                ),
            decreases m - j,
        {
            proof { inner.lemma_wf(); }
            let (t, rec) = inner.entry(j);
            proof {
                assert(inner@.contains_key(inner.keys()[j as int]));
            }
            let ghost before = out@;
            out.push(((name.clone(), t.clone()), rec.copy()));
            proof {
                let key = (name@, t@);
                assert(out@.drop_last() =~= before);
                assert(pairs_to_records(out@) == pairs_to_records(before).insert(key, rec@));
                assert(records_of(*rs).contains_key(key));
                assert(records_of(*rs)[key] == rec@);
                assert(pairs_to_records(out@) =~= head.union_prefer_right(
                    records_of(*rs).restrict(Set::new(|k: (Seq<char>, Seq<char>)| k.0 == name@ && exists|q: int| 0 <= q < j + 1 && inner.keys()[q] == k.1)),
                )) by {
                    assert forall|k: (Seq<char>, Seq<char>)| (k.0 == name@ && exists|q: int| 0 <= q < j + 1 && inner.keys()[q] == k.1)
                        <==> ((k.0 == name@ && exists|q: int| 0 <= q < j && inner.keys()[q] == k.1) || k == key) by {
                        if k.0 == name@ && exists|q: int| 0 <= q < j + 1 && inner.keys()[q] == k.1 {
                            let q = choose|q: int| 0 <= q < j + 1 && inner.keys()[q] == k.1;
                            if q < j {
                            } else {
                                assert(k == key);
                            }
                        }
                        if k == key {
                            assert(inner.keys()[j as int] == k.1);
                        }
                    }
                }
            }
            j = j + 1;
        }
        proof {
            assert forall|k: (Seq<char>, Seq<char>)| records_of(*rs).contains_key(k) && k.0 == name@ implies (exists|q: int| 0 <= q < m && inner.keys()[q] == k.1) by {
                assert(inner@.contains_key(k.1));
            }
            assert(pairs_to_records(out@) =~= records_of(*rs).restrict(
                Set::new(|k: (Seq<char>, Seq<char>)| exists|j: int| 0 <= j < i + 1 && rs.keys()[j] == k.0),
            )) by {
                assert forall|k: (Seq<char>, Seq<char>)| (exists|q: int| 0 <= q < i + 1 && rs.keys()[q] == k.0)
                    <==> ((exists|q: int| 0 <= q < i && rs.keys()[q] == k.0) || k.0 == name@) by {
                    if exists|q: int| 0 <= q < i + 1 && rs.keys()[q] == k.0 {
                        let q = choose|q: int| 0 <= q < i + 1 && rs.keys()[q] == k.0;
                        if q == i {
                            assert(k.0 == name@);
                        }
                    }
                    if k.0 == name@ {
                        assert(rs.keys()[i as int] == k.0);
                    }
                }
            }
        }
        i = i + 1;
    }
    proof {
        assert(pairs_to_records(out@) =~= records_of(*rs)) by {
            assert forall|k: (Seq<char>, Seq<char>)| records_of(*rs).contains_key(k) implies (exists|j: int| 0 <= j < n && rs.keys()[j] == k.0) by {
                assert(rs@.contains_key(k.0));
            }
        }
    }
    out
}

/// Whether `x` is among the first `i` of `ids`.
pub open spec fn listed_before(ids: Seq<Seq<char>>, i: int, x: Seq<char>) -> bool {
    exists|j: int| 0 <= j < i && ids[j] == x
}

/// Record tables holding the listed record sets, each under its name and type.
fn load_records(ps: &Vec<((String, String), ResourceRecordSet)>) -> (r: Table<Table<ResourceRecordSet>>)
    ensures
        records_wf(r),
        records_of(r) == pairs_to_records(ps@),
{
    let mut rs: Table<Table<ResourceRecordSet>> = Table::new();
    assert(records_of(rs) =~= pairs_to_records(ps@.subrange(0, 0)));
    let mut i: usize = 0;
    while i < ps.len()
        invariant
            i <= ps@.len(),
            records_wf(rs),
            records_of(rs) == pairs_to_records(ps@.subrange(0, i as int)),
        decreases ps@.len() - i,
    {
        let ghost r0 = rs;
        let name = ps[i].0.0.clone();
        let rtype = ps[i].0.1.clone();
        let rec = ps[i].1.copy();
        let ghost k = (name@, rtype@);
        let ghost grec = rec;
        let mut inner = match rs.remove(name.as_str()) {
            Some(t) => t,
            None => Table::new(),
        };
        let ghost i0 = inner;
        inner.insert(rtype, rec);
        rs.insert(name, inner);
        proof {
            assert forall|n: Seq<char>| #[trigger] rs@.contains_key(n) implies rs@[n].wf() by {
                if n != k.0 {
                    assert(r0@.contains_key(n));
                }
            }
            assert forall|x: (Seq<char>, Seq<char>)| #[trigger] records_of(rs).contains_key(x) <==> records_of(r0).insert(k, grec@).contains_key(x) by {
                if x.0 == k.0 && r0@.contains_key(k.0) {
                    assert(i0 == r0@[k.0]);
                }
            }
            assert(records_of(rs) =~= records_of(r0).insert(k, grec@));
            assert(ps@.subrange(0, i + 1).drop_last() =~= ps@.subrange(0, i as int));
        }
        i = i + 1;
    }
    assert(ps@.subrange(0, ps@.len() as int) =~= ps@);
    rs
}

impl Route53State {
    /// Everything held: each zone under its id, in id order, with its record
    /// sets by name and then type.
    pub fn export_snapshot(&self) -> (r: Route53StateSnapshot)
        requires
            self.wf(),
        ensures
            snapshot_zones(r.hosted_zones@) == self.zones(),
    {
        let n = self.hosted_zones.len();
        proof { self.hosted_zones.lemma_wf(); }
        let mut out: Vec<(String, ZoneSnapshot)> = Vec::new();
        let mut i: usize = 0;
        while i < n
            invariant
                self.wf(),
                n == self.zone_ids().len(),
                i <= n,
                snapshot_zones(out@) == self.zones().restrict(Set::new(|k: Seq<char>| listed_before(self.zone_ids(), i as int, k))),
            decreases n - i,
        {
            proof { self.hosted_zones.lemma_wf(); }
            let (k, z) = self.hosted_zones.entry(i);
            proof {
                assert(self.hosted_zones@.contains_key(self.hosted_zones.keys()[i as int]));
                assert(zone_wf(*z));
            }
            let zs = ZoneSnapshot {
                id: z.id.clone(),
                name: z.name.clone(),
                caller_reference: z.caller_reference.clone(),
                comment: copy_opt(&z.comment),
                private_zone: z.private_zone,
                record_sets: save_records(&z.record_sets),
            };
            let ghost before = out@;
            let ghost gk = k@;
            out.push((k.clone(), zs));
            proof {
                assert(out@.drop_last() =~= before);
                assert(snapshot_zone_view(zs) == zone_view(*z));
                assert(snapshot_zones(out@) =~= self.zones().restrict(
                    Set::new(|x: Seq<char>| listed_before(self.zone_ids(), i + 1, x)),
                )) by {
                    assert forall|x: Seq<char>| #[trigger] listed_before(self.zone_ids(), i + 1, x)
                        <==> (listed_before(self.zone_ids(), i as int, x) || x == gk) by {
                        if listed_before(self.zone_ids(), i + 1, x) {
                            let j = choose|j: int| 0 <= j < i + 1 && self.zone_ids()[j] == x;
                            if j == i {
                                assert(x == gk);
                            }
                        }
                        if x == gk {
                            assert(self.zone_ids()[i as int] == x);
                        }
                    }
                }
            }
            i = i + 1;
        }
        proof {
            assert(snapshot_zones(out@) =~= self.zones()) by {
                assert forall|x: Seq<char>| #[trigger] self.zones().contains_key(x) implies listed_before(self.zone_ids(), n as int, x) by {
                    assert(self.hosted_zones@.contains_key(x));
                    let j = choose|j: int| 0 <= j < self.zone_ids().len() && self.zone_ids()[j] == x;
                }
            }
        }
        Route53StateSnapshot { hosted_zones: out }
    }

    /// Replaces every zone by those saved, each under its key in order (a
    /// later one replacing an earlier one under the same key).
    pub fn import_snapshot(&mut self, snapshot: Route53StateSnapshot)
        requires
            old(self).wf(),
        ensures
            final(self).wf(),
            final(self).zones() == snapshot_zones(snapshot.hosted_zones@),
            final(self).account() == old(self).account(),
            final(self).home_region() == old(self).home_region(),
    {
        self.hosted_zones.clear();
        let zs = &snapshot.hosted_zones;
        assert(self.zones() =~= snapshot_zones(zs@.subrange(0, 0)));
        let mut i: usize = 0;
        while i < zs.len()
            invariant
                i <= zs@.len(),
                self.wf(),
                self.zones() == snapshot_zones(zs@.subrange(0, i as int)),
                self.account() == old(self).account(),
                self.home_region() == old(self).home_region(),
            decreases zs@.len() - i,
        {
            let ghost s0 = *self;
            let (k, z) = (&zs[i].0, &zs[i].1);
            let stored = StoredHostedZone {
                id: z.id.clone(),
                name: z.name.clone(),
                caller_reference: z.caller_reference.clone(),
                comment: copy_opt(&z.comment),
                private_zone: z.private_zone,
                record_sets: load_records(&z.record_sets),
            };
            let ghost gs = stored;
            self.hosted_zones.insert(k.clone(), stored);
            proof {
                lemma_map_values_insert(s0.hosted_zones@, k@, gs, |z: StoredHostedZone| zone_view(z));
                assert forall|x: Seq<char>| #[trigger] self.hosted_zones@.contains_key(x) implies zone_wf(self.hosted_zones@[x]) by {
                    if x != k@ {
                        assert(s0.hosted_zones@.contains_key(x));
                    }
                }
                assert(zone_view(gs) == snapshot_zone_view(*z));
                assert(zs@.subrange(0, i + 1).drop_last() =~= zs@.subrange(0, i as int));
            }
            i = i + 1;
        }
        assert(zs@.subrange(0, zs@.len() as int) =~= zs@);
    }
}

/// Restoring what was exported gives back the same zones.
pub proof fn law_route53_round_trip(s0: Route53State, snap: Route53StateSnapshot, s1: Route53State)
    requires
        snapshot_zones(snap.hosted_zones@) == s0.zones(),
        s1.zones() == snapshot_zones(snap.hosted_zones@),
    ensures
        s1.zones() == s0.zones(),
{
}

} // verus!
