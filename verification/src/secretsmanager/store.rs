//! The secret store: secrets by name, found also by ARN, each with its versions.
use vstd::prelude::*;
use crate::runtime::{new_uuid, now_seconds, uuid_bits};
use crate::secretsmanager::types::{CreateSecretRequest, Secret, SecretVersion, SecretView, VersionView};
use crate::ses::state::{copy_opt, copy_strings, opt_text};
use crate::table::{lemma_map_values_insert, lemma_map_values_remove, Table};
use crate::text::{append, chars_to_string, str_eq, to_chars, views};

verus! {

/// Why a secrets request failed.
#[derive(Debug, Clone, Copy, PartialEq, Eq)]
pub enum SmErrorKind {
    ResourceExists,
    ResourceNotFound,
    InvalidRequest,
    InvalidParameter,
    InvalidAction,
    BadRequest,
}

/// A failed secrets request: the reason and a message.
#[derive(Debug)]
pub struct SmError {
    pub kind: SmErrorKind,
    pub message: String,
}

impl SmErrorKind {
    /// The error code, as text.
    pub open spec fn code_spec(&self) -> Seq<char> {
        match self {
            SmErrorKind::ResourceExists => "ResourceExistsException"@,
            SmErrorKind::ResourceNotFound => "ResourceNotFoundException"@,
            SmErrorKind::InvalidRequest => "InvalidRequestException"@,
            SmErrorKind::InvalidParameter => "InvalidParameterException"@,
            SmErrorKind::InvalidAction => "InvalidAction"@,
            SmErrorKind::BadRequest => "BadRequest"@,
        }
    }

    /// The error code.
    pub fn code(&self) -> (r: &'static str)
        ensures
            r@ == self.code_spec(),
    {
        match self {
            SmErrorKind::ResourceExists => "ResourceExistsException",
            SmErrorKind::ResourceNotFound => "ResourceNotFoundException",
            SmErrorKind::InvalidRequest => "InvalidRequestException",
            SmErrorKind::InvalidParameter => "InvalidParameterException",
            SmErrorKind::InvalidAction => "InvalidAction",
            SmErrorKind::BadRequest => "BadRequest",
        }
    }

    /// The HTTP status: 404 for what does not exist, 400 otherwise.
    pub open spec fn status_spec(&self) -> u16 {
        if *self == SmErrorKind::ResourceNotFound { 404u16 } else { 400u16 }
    }

    /// The HTTP status.
    pub fn status(&self) -> (r: u16)
        ensures
            r == self.status_spec(),
    {
        match self {
            SmErrorKind::ResourceNotFound => 404,
            _ => 400,
        }
    }
}

/// `AWSCURRENT`, the stage of the current version.
pub open spec fn current_stage() -> Seq<char> {
    "AWSCURRENT"@
}

/// `AWSPREVIOUS`, the stage of the version before.
pub open spec fn previous_stage() -> Seq<char> {
    "AWSPREVIOUS"@
}

/// `stages` without `AWSCURRENT`.
pub open spec fn without_current(stages: Seq<Seq<char>>) -> Seq<Seq<char>>
    decreases stages.len(),
{
    if stages.len() == 0 {
        Seq::empty()
    } else {
        let prev = without_current(stages.drop_last());
        if stages.last() == current_stage() { prev } else { prev.push(stages.last()) }
    }
}

/// A copy of `stages` without `AWSCURRENT`.
fn drop_current(stages: &Vec<String>) -> (r: Vec<String>)
    ensures
        views(r@) == without_current(views(stages@)),
{
    let ghost sv = views(stages@);
    let mut r: Vec<String> = Vec::new();
    let mut i: usize = 0;
    while i < stages.len()
        invariant
            sv == views(stages@),
            i <= sv.len(),
            views(r@) == without_current(sv.subrange(0, i as int)),
        decreases sv.len() - i,
    {
        assert(sv.subrange(0, i + 1).drop_last() =~= sv.subrange(0, i as int));
        let ghost before = r@;
        if !str_eq(stages[i].as_str(), "AWSCURRENT") {
            r.push(stages[i].clone());
            assert(views(r@) =~= views(before).push(sv[i as int]));
        }
        i = i + 1;
    }
    assert(sv.subrange(0, sv.len() as int) =~= sv);
    r
}

/// Whether `v` holds the string `s`.
fn holds(v: &Vec<String>, s: &str) -> (r: bool)
    ensures
        r == views(v@).contains(s@),
{
    let mut i: usize = 0;
    while i < v.len()
        invariant
            i <= v@.len(),
            forall|j: int| 0 <= j < i ==> views(v@)[j] != s@,
        decreases v@.len() - i,
    {
        if str_eq(v[i].as_str(), s) {
            assert(views(v@)[i as int] == s@);
            return true;
        }
        i = i + 1;
    }
    false
}

/// The ARN of a secret: its name and a six-character random suffix.
pub open spec fn is_secret_arn(arn: Seq<char>, region: Seq<char>, account: Seq<char>, name: Seq<char>) -> bool {
    exists|suffix: Seq<char>| suffix.len() == 6
        && arn == "arn:aws:secretsmanager:"@ + region + ":"@ + account + ":secret:"@ + name + "-"@ + suffix
}

/// The versions of a secret after a put with `stages`: when the put takes
/// `AWSCURRENT`, the old current version loses it and gains `AWSPREVIOUS`
/// (once); then the new version is added.
pub open spec fn put_versions(s: SecretView, new_version: VersionView, takes_current: bool, add_previous_always: bool) -> Map<Seq<char>, VersionView> {
    let retired = match s.current_version_id {
        Some(old) => if takes_current && s.versions.contains_key(old) {
            let stages = without_current(s.versions[old].version_stages);
            let kept = if !add_previous_always && stages.contains(previous_stage()) { stages } else { stages.push(previous_stage()) };
            s.versions.insert(old, VersionView { version_stages: kept, ..s.versions[old] })
        } else {
            s.versions
        },
        None => s.versions,
    };
    retired.insert(new_version.version_id, new_version)
}

/// The first version, in version-id order, that has `stage`.
pub open spec fn first_with_stage(ids: Seq<Seq<char>>, vs: Map<Seq<char>, VersionView>, stage: Seq<char>) -> Option<VersionView>
    decreases ids.len(),
{
    if ids.len() == 0 {
        None
    } else if vs[ids[0]].version_stages.contains(stage) {
        Some(vs[ids[0]])
    } else {
        first_with_stage(ids.drop_first(), vs, stage)
    }
}

/// A copy of the first version, by version id, that has `stage`.
fn find_stage(versions: &Table<SecretVersion>, stage: &str) -> (r: Option<SecretVersion>)
    requires
        versions.wf(),
    ensures
        match first_with_stage(versions.keys(), versions@.map_values(|v: SecretVersion| v@), stage@) {
            Some(found) => r matches Some(v) && v@ == found,
            None => r is None,
        },
{
    let ghost vs = versions@.map_values(|v: SecretVersion| v@);
    let ghost ks = versions.keys();
    let n = versions.len();
    proof { versions.lemma_wf(); }
    let mut i: usize = 0;
    assert(ks.subrange(0, ks.len() as int) =~= ks);
    while i < n
        invariant
            versions.wf(),
            n == ks.len(),
            ks == versions.keys(),
            vs == versions@.map_values(|v: SecretVersion| v@),
            i <= n,
            forall|j: int| 0 <= j < n ==> #[trigger] versions@.contains_key(ks[j]) && versions@[ks[j]] == versions.vals()[j],
            first_with_stage(ks, vs, stage@) == first_with_stage(ks.subrange(i as int, n as int), vs, stage@),
        decreases n - i,
    {
        let (k, v) = versions.entry(i);
        let ghost rest = ks.subrange(i as int, n as int);
        assert(rest[0] == ks[i as int]);
        assert(versions@.contains_key(ks[i as int]));
        assert(versions@[ks[i as int]] == *v);
        assert(vs[ks[i as int]] == v@);
        if holds(&v.version_stages, stage) {
            return Some(v.copy());
        }
        assert(rest.drop_first() =~= ks.subrange(i + 1, n as int));
        i = i + 1;
    }
    None
}

/// Moves the current version of a secret off `AWSCURRENT` and onto
/// `AWSPREVIOUS` (added once, or always), then adds `new_version`.
fn add_version(sec: &mut Secret, new_version: SecretVersion, takes_current: bool, add_previous_always: bool)
    requires
        old(sec).versions.wf(),
    ensures
        final(sec).versions.wf(),
        final(sec)@ == (SecretView {
            versions: put_versions(old(sec)@, new_version@, takes_current, add_previous_always),
            ..old(sec)@
        }),
{
    let ghost old_sec = *old(sec);
    if takes_current {
        match &sec.current_version_id {
            Some(old_id) => {
                let oid = old_id.clone();
                match sec.versions.remove(oid.as_str()) {
                    Some(mut old_ver) => {
                        let mut stages = drop_current(&old_ver.version_stages);
                        if add_previous_always || !holds(&stages, "AWSPREVIOUS") {
                            let ghost before = stages@;
                            stages.push("AWSPREVIOUS".to_owned());
                            assert(views(stages@) =~= views(before).push(previous_stage()));
                        }
                        old_ver.version_stages = stages;
                        let ghost gv = old_ver;
                        sec.versions.insert(oid, old_ver);
                        proof {
                            lemma_map_values_insert(old_sec.versions@, oid@, gv, |v: SecretVersion| v@);
                            assert(sec.versions@ =~= old_sec.versions@.insert(oid@, gv));
                        }
                    },
                    None => {
                        assert(sec.versions@ =~= old_sec.versions@);
                    },
                }
            },
            None => {},
        }
    }
    let ghost mid = sec.versions@;
    let ghost gn = new_version;
    sec.versions.insert(new_version.version_id.clone(), new_version);
    proof {
        lemma_map_values_insert(mid, gn.version_id@, gn, |v: SecretVersion| v@);
    }
    assert(sec@.versions =~= put_versions(old_sec@, gn@, takes_current, add_previous_always));
}

/// A copy of a table of versions.
fn copy_versions(t: &Table<SecretVersion>) -> (r: Table<SecretVersion>)
    requires
        t.wf(),
    ensures
        r.wf(),
        r@.map_values(|v: SecretVersion| v@) == t@.map_values(|v: SecretVersion| v@),
{
    let n = t.len();
    proof { t.lemma_wf(); }
    let mut r: Table<SecretVersion> = Table::new();
    let mut i: usize = 0;
    while i < n
        invariant
            t.wf(),
            r.wf(),
            n == t.keys().len(),
            i <= n,
            forall|j: int| 0 <= j < n ==> #[trigger] t@.contains_key(t.keys()[j]) && t@[t.keys()[j]] == t.vals()[j],
            forall|k: Seq<char>| #[trigger] t@.contains_key(k) ==> exists|j: int| 0 <= j < n && t.keys()[j] == k,
            r@.dom() == t.keys().subrange(0, i as int).to_set(),
            forall|k: Seq<char>| #[trigger] r@.contains_key(k) ==> t@.contains_key(k) && r@[k]@ == t@[k]@,
        decreases n - i,
    {
        let (k, v) = t.entry(i);
        let ghost before = r@;
        r.insert(k.clone(), v.copy());
        proof {
            let ks = t.keys();
            assert(ks.subrange(0, i + 1) =~= ks.subrange(0, i as int).push(ks[i as int]));
            ks.subrange(0, i as int).lemma_push_to_set_commute(ks[i as int]);
        }
        i = i + 1;
        assert(r@.dom() =~= t.keys().subrange(0, i as int).to_set());
    }
    proof {
        assert(t.keys().subrange(0, n as int) =~= t.keys());
        assert forall|k: Seq<char>| #[trigger] t@.contains_key(k) implies r@.contains_key(k) by {
            let j = choose|j: int| 0 <= j < n && t.keys()[j] == k;
            assert(t.keys().to_set().contains(t.keys()[j]));
        }
        assert(r@.map_values(|v: SecretVersion| v@) =~= t@.map_values(|v: SecretVersion| v@));
    }
    r
}

impl Secret {
    /// A copy of the secret.
    pub fn copy(&self) -> (r: Secret)
        requires
            self.versions.wf(),
        ensures
            r@ == self@,
            r.versions.wf(),
    {
        Secret {
            arn: self.arn.clone(),
            name: self.name.clone(),
            description: copy_opt(&self.description),
            kms_key_id: copy_opt(&self.kms_key_id),
            deleted_date: self.deleted_date,
            created_date: self.created_date,
            last_accessed_date: self.last_accessed_date,
            last_changed_date: self.last_changed_date,
            versions: copy_versions(&self.versions),
            current_version_id: copy_opt(&self.current_version_id),
        }
    }
}

/// The secrets of `names` not marked for deletion, in order.
pub open spec fn live_secrets(names: Seq<Seq<char>>, secrets: Map<Seq<char>, SecretView>) -> Seq<SecretView>
    decreases names.len(),
{
    if names.len() == 0 {
        Seq::empty()
    } else {
        let prev = live_secrets(names.drop_last(), secrets);
        if secrets[names.last()].deleted_date is None { prev.push(secrets[names.last()]) } else { prev }
    }
}

/// Two well-formed tables with the same keys list them in the same order.
pub proof fn lemma_table_keys_determined<V>(a: Table<V>, b: Table<V>)
    requires
        a.wf(),
        b.wf(),
        a@.dom() == b@.dom(),
    ensures
        a.keys() == b.keys(),
{
    a.lemma_wf();
    b.lemma_wf();
    assert forall|x: Seq<char>| a.keys().contains(x) <==> b.keys().contains(x) by {
        if a.keys().contains(x) {
            let i = choose|i: int| 0 <= i < a.keys().len() && a.keys()[i] == x;
            assert(a@.contains_key(a.keys()[i]));
            assert(b@.contains_key(x));
            let j = choose|j: int| 0 <= j < b.keys().len() && b.keys()[j] == x;
            assert(b.keys().contains(x));
        }
        if b.keys().contains(x) {
            let i = choose|i: int| 0 <= i < b.keys().len() && b.keys()[i] == x;
            assert(b@.contains_key(b.keys()[i]));
            assert(a@.contains_key(x));
            let j = choose|j: int| 0 <= j < a.keys().len() && a.keys()[j] == x;
            assert(a.keys().contains(x));
        }
    }
    crate::text::lemma_sorted_unique(a.keys(), b.keys());
}

/// What `first_with_stage` finds is the version under one of the ids.
pub proof fn lemma_first_with_stage_found(ids: Seq<Seq<char>>, vs: Map<Seq<char>, VersionView>, stage: Seq<char>)
    requires
        forall|i: int| 0 <= i < ids.len() ==> #[trigger] vs.contains_key(ids[i]),
    ensures
        first_with_stage(ids, vs, stage) matches Some(v) ==> exists|i: int| 0 <= i < ids.len() && v == vs[ids[i]],
    decreases ids.len(),
{
    if ids.len() > 0 {
        if vs[ids[0]].version_stages.contains(stage) {
            assert(first_with_stage(ids, vs, stage) == Some(vs[ids[0]]));
        } else {
            assert forall|i: int| 0 <= i < ids.drop_first().len() implies #[trigger] vs.contains_key(ids.drop_first()[i]) by {
                assert(ids.drop_first()[i] == ids[i + 1]);
            }
            lemma_first_with_stage_found(ids.drop_first(), vs, stage);
            if first_with_stage(ids, vs, stage) is Some {
                let i = choose|i: int| 0 <= i < ids.drop_first().len() && first_with_stage(ids, vs, stage)->0 == vs[ids.drop_first()[i]];
                assert(ids.drop_first()[i] == ids[i + 1]);
            }
        }
    }
}

/// The secret store.
pub struct SecretsManagerEngine {
    secrets: Table<Secret>,
    by_arn: Table<String>,
    account_id: String,
    region: String,
}

impl SecretsManagerEngine {
    /// The secrets, by name.
    pub closed spec fn secrets(&self) -> Map<Seq<char>, SecretView> {
        self.secrets@.map_values(|s: Secret| s@)
    }

    /// The secret names in ascending order.
    pub closed spec fn names(&self) -> Seq<Seq<char>> {
        self.secrets.keys()
    }

    /// The name of the secret each ARN leads to.
    pub closed spec fn arns(&self) -> Map<Seq<char>, Seq<char>> {
        self.by_arn@.map_values(|n: String| n@)
    }

    /// The version ids of a secret, in ascending order.
    pub closed spec fn version_ids(&self, name: Seq<char>) -> Seq<Seq<char>> {
        self.secrets@[name].versions.keys()
    }

    /// The account the store answers for.
    pub closed spec fn account(&self) -> Seq<char> {
        self.account_id@
    }

    /// The region the store answers for.
    pub closed spec fn home_region(&self) -> Seq<char> {
        self.region@
    }

    /// The tables are well formed, each secret is stored under its name, and
    /// each ARN leads to a secret with that ARN.
    pub closed spec fn wf(&self) -> bool {
        &&& self.secrets.wf()
        &&& self.by_arn.wf()
        &&& forall|n: Seq<char>| #[trigger] self.secrets@.contains_key(n) ==> self.secrets@[n].versions.wf()
            && self.secrets@[n].name@ == n
        &&& forall|a: Seq<char>| #[trigger] self.by_arn@.contains_key(a) ==> self.secrets@.contains_key(self.by_arn@[a]@)
            && self.secrets@[self.by_arn@[a]@].arn@ == a
    }

    /// The name of the secret an id (an ARN or a name) leads to: by ARN first.
    pub open spec fn resolve(&self, id: Seq<char>) -> Option<Seq<char>> {
        if self.arns().contains_key(id) {
            Some(self.arns()[id])
        } else if self.secrets().contains_key(id) {
            Some(id)
        } else {
            None
        }
    }

    /// An empty store for an account and region.
    pub fn new(account_id: String, region: String) -> (s: Self)
        ensures
            s.wf(),
            s.secrets() == Map::<Seq<char>, SecretView>::empty(),
            s.arns() == Map::<Seq<char>, Seq<char>>::empty(),
            s.account() == account_id@,
            s.home_region() == region@,
    {
        let s = SecretsManagerEngine { secrets: Table::new(), by_arn: Table::new(), account_id, region };
        assert(s.secrets() =~= Map::<Seq<char>, SecretView>::empty());
        assert(s.arns() =~= Map::<Seq<char>, Seq<char>>::empty());
        s
    }

    /// A fresh ARN for the secret `name`.
    pub fn format_secret_arn(&self, name: &str) -> (r: String)
        ensures
            is_secret_arn(r@, self.home_region(), self.account(), name@),
    {
        let u = new_uuid();
        let uv = to_chars(u.as_str());
        let suffix = chars_to_string(uv.as_slice(), 0, 6);
        let mut r = String::new();
        append(&mut r, "arn:aws:secretsmanager:");
        append(&mut r, self.region.as_str());
        append(&mut r, ":");
        append(&mut r, self.account_id.as_str());
        append(&mut r, ":secret:");
        append(&mut r, name);
        append(&mut r, "-");
        append(&mut r, suffix.as_str());
        assert(r@ =~= "arn:aws:secretsmanager:"@ + self.home_region() + ":"@ + self.account() + ":secret:"@ + name@ + "-"@ + suffix@);
        r
    }

    /// The name of the secret an id leads to.
    fn find_secret(&self, id: &str) -> (r: Option<String>)
        requires
            self.wf(),
        ensures
            opt_text(r) == self.resolve(id@),
            r matches Some(n) ==> self.secrets().contains_key(n@),
    {
        match self.by_arn.get(id) {
            Some(n) => Some(n.clone()),
            None => if self.secrets.contains(id) { Some(id.to_owned()) } else { None },
        }
    }
    /// Puts a secret back under its name (it was taken out to be changed).
    proof fn lemma_put_back(old_e: Self, mid: Table<Secret>, name: Seq<char>, sec: Secret, new_e: Self)
        requires
            old_e.wf(),
            old_e.secrets@.contains_key(name),
            mid.wf(),
            mid@ == old_e.secrets@.remove(name),
            new_e.secrets@ == mid@.insert(name, sec),
            new_e.secrets.wf(),
            new_e.by_arn == old_e.by_arn,
            sec.versions.wf(),
            sec.name@ == name,
            sec.arn@ == old_e.secrets@[name].arn@,
        ensures
            new_e.wf(),
            new_e.secrets() == old_e.secrets().insert(name, sec@),
    {
        assert(new_e.secrets@ =~= old_e.secrets@.insert(name, sec));
        lemma_map_values_insert(old_e.secrets@, name, sec, |s: Secret| s@);
    }

    /// Creates a secret, with a first version (stage `AWSCURRENT`) when a value
    /// is given. Answers its ARN and the version id (the request token, else a
    /// fresh UUID).
    pub fn create_secret(&mut self, req: CreateSecretRequest) -> (r: Result<(String, String), SmError>)
        requires
            old(self).wf(),
        ensures
            final(self).wf(),
            final(self).account() == old(self).account(),
            final(self).home_region() == old(self).home_region(),
            match r {
                Err(e) => old(self).secrets().contains_key(req.name@) && e.kind == SmErrorKind::ResourceExists
                    && e.message@ == "The secret "@ + req.name@ + " already exists."@
                    && final(self).secrets() == old(self).secrets() && final(self).arns() == old(self).arns(),
                Ok((arn, vid)) => {
                    let s = final(self).secrets()[req.name@];
                    let has_value = req.secret_string is Some || req.secret_binary is Some;
                    &&& !old(self).secrets().contains_key(req.name@)
                    &&& is_secret_arn(arn@, old(self).home_region(), old(self).account(), req.name@)
                    &&& (match req.client_request_token { Some(t) => vid@ == t@, None => vid@.len() == 36 })
                    &&& final(self).secrets() == old(self).secrets().insert(req.name@, s)
                    &&& final(self).arns() == old(self).arns().insert(arn@, req.name@)
                    &&& s.arn == arn@ && s.name == req.name@
                    &&& s.description == opt_text(req.description) && s.kms_key_id == opt_text(req.kms_key_id)
                    &&& s.deleted_date is None && s.last_accessed_date is None && s.last_changed_date == Some(s.created_date)
                    &&& s.current_version_id == if has_value { Some(vid@) } else { None }
                    &&& s.versions == if has_value {
                        Map::empty().insert(vid@, VersionView {
                            version_id: vid@,
                            secret_string: opt_text(req.secret_string),
                            secret_binary: opt_text(req.secret_binary),
                            version_stages: seq![current_stage()],
                            created_date: s.created_date,
                        })
                    } else {
                        Map::empty()
                    }
                },
            },
    {
        let ghost old_self = *old(self);
        let name = req.name;
        if self.secrets.contains(name.as_str()) {
            let mut m = String::new();
            append(&mut m, "The secret ");
            append(&mut m, name.as_str());
            append(&mut m, " already exists.");
            return Err(SmError { kind: SmErrorKind::ResourceExists, message: m });
        }
        let arn = self.format_secret_arn(name.as_str());
        let now = now_seconds();
        let version_id = match req.client_request_token {
            Some(t) => t,
            None => new_uuid(),
        };
        let has_value = req.secret_string.is_some() || req.secret_binary.is_some();
        let mut versions: Table<SecretVersion> = Table::new();
        if has_value {
            let stages: Vec<String> = vec!["AWSCURRENT".to_owned()];
            assert(views(stages@) =~= seq![current_stage()]);
            versions.insert(version_id.clone(), SecretVersion {
                version_id: version_id.clone(),
                secret_string: req.secret_string,
                secret_binary: req.secret_binary,
                version_stages: stages,
                created_date: now,
            });
        }
        let current = if has_value { Some(version_id.clone()) } else { None };
        let secret = Secret {
            arn: arn.clone(),
            name: name.clone(),
            description: req.description,
            kms_key_id: req.kms_key_id,
            deleted_date: None,
            created_date: now,
            last_accessed_date: None,
            last_changed_date: Some(now),
            versions,
            current_version_id: current,
        };
        let ghost gs = secret;
        let ghost gname = name;
        self.secrets.insert(name.clone(), secret);
        self.by_arn.insert(arn.clone(), name);
        proof {
            lemma_map_values_insert(old_self.secrets@, req.name@, gs, |s: Secret| s@);
            lemma_map_values_insert(old_self.by_arn@, arn@, gname, |n: String| n@);
            assert(gs@.versions =~= (if has_value {
                Map::empty().insert(version_id@, VersionView {
                    version_id: version_id@,
                    secret_string: opt_text(req.secret_string),
                    secret_binary: opt_text(req.secret_binary),
                    version_stages: seq![current_stage()],
                    created_date: now,
                })
            } else {
                Map::empty()
            }));
            assert forall|a: Seq<char>| #[trigger] self.by_arn@.contains_key(a) implies self.secrets@.contains_key(self.by_arn@[a]@)
                && self.secrets@[self.by_arn@[a]@].arn@ == a by {
                if a != arn@ {
                    assert(old_self.by_arn@.contains_key(a));
                    assert(old_self.by_arn@[a]@ != req.name@);
                }
            }
        }
        Ok((arn, version_id))
    }

    /// A version of a secret: the one with `version_id` when given, else the
    /// first (by version id) with `version_stage` (`AWSCURRENT` by default).
    /// Reading a secret that is not marked for deletion records the access time.
    pub fn get_secret_value(&mut self, secret_id: &str, version_id_opt: Option<&str>, version_stage_opt: Option<&str>)
        -> (r: Result<SecretVersion, SmError>)
        requires
            old(self).wf(),
        ensures
            final(self).wf(),
            final(self).account() == old(self).account(),
            final(self).home_region() == old(self).home_region(),
            final(self).arns() == old(self).arns(),
            match old(self).resolve(secret_id@) {
                None => r matches Err(e) && e.kind == SmErrorKind::ResourceNotFound
                    && e.message@ == "Secret "@ + secret_id@ + " not found."@ && final(self).secrets() == old(self).secrets(),
                Some(n) => {
                    let s = old(self).secrets()[n];
                    if s.deleted_date is Some {
                        r matches Err(e) && e.kind == SmErrorKind::InvalidRequest
                            && e.message@ == "Secret "@ + secret_id@ + " is marked for deletion."@
                            && final(self).secrets() == old(self).secrets()
                    } else {
                        &&& final(self).secrets().contains_key(n)
                        &&& final(self).secrets() == old(self).secrets().insert(n, SecretView {
                            last_accessed_date: final(self).secrets()[n].last_accessed_date,
                            ..s
                        })
                        &&& final(self).secrets()[n].last_accessed_date is Some
                        &&& match version_id_opt {
                            Some(v) => if s.versions.contains_key(v@) {
                                r matches Ok(ver) && ver@ == s.versions[v@]
                            } else {
                                r matches Err(e) && e.kind == SmErrorKind::ResourceNotFound
                                    && e.message@ == "Version "@ + v@ + " not found for secret "@ + secret_id@ + "."@
                            },
                            None => {
                                let stage = match version_stage_opt { Some(st) => st@, None => current_stage() };
                                match first_with_stage(old(self).version_ids(n), s.versions, stage) {
                                    Some(found) => r matches Ok(ver) && ver@ == found,
                                    None => r matches Err(e) && e.kind == SmErrorKind::ResourceNotFound
                                        && e.message@ == "Version stage "@ + stage + " not found for secret "@ + secret_id@ + "."@,
                                }
                            },
                        }
                    }
                },
            },
    {
        let ghost old_self = *old(self);
        let name = match self.find_secret(secret_id) {
            Some(n) => n,
            None => {
                let mut m = String::new();
                append(&mut m, "Secret ");
                append(&mut m, secret_id);
                append(&mut m, " not found.");
                return Err(SmError { kind: SmErrorKind::ResourceNotFound, message: m });
            },
        };
        let mut sec = self.secrets.remove(name.as_str()).unwrap();
        let ghost mid = self.secrets;
        if sec.deleted_date.is_some() {
            let ghost gs = sec;
            self.secrets.insert(name, sec);
            proof {
                assert(self.secrets@ =~= old_self.secrets@);
            }
            let mut m = String::new();
            append(&mut m, "Secret ");
            append(&mut m, secret_id);
            append(&mut m, " is marked for deletion.");
            return Err(SmError { kind: SmErrorKind::InvalidRequest, message: m });
        }
        sec.last_accessed_date = Some(now_seconds());
        let result = match version_id_opt {
            Some(v) => match sec.versions.get(v) {
                Some(ver) => Ok(ver.copy()),
                None => {
                    let mut m = String::new();
                    append(&mut m, "Version ");
                    append(&mut m, v);
                    append(&mut m, " not found for secret ");
                    append(&mut m, secret_id);
                    append(&mut m, ".");
                    Err(SmError { kind: SmErrorKind::ResourceNotFound, message: m })
                },
            },
            None => {
                let stage: &str = match version_stage_opt { Some(st) => st, None => "AWSCURRENT" };
                match find_stage(&sec.versions, stage) {
                    Some(ver) => Ok(ver),
                    None => {
                        let mut m = String::new();
                        append(&mut m, "Version stage ");
                        append(&mut m, stage);
                        append(&mut m, " not found for secret ");
                        append(&mut m, secret_id);
                        append(&mut m, ".");
                        Err(SmError { kind: SmErrorKind::ResourceNotFound, message: m })
                    },
                }
            },
        };
        let ghost gs = sec;
        self.secrets.insert(name, sec);
        proof {
            Self::lemma_put_back(old_self, mid, name@, gs, *self);
            assert(gs@ == (SecretView { last_accessed_date: gs@.last_accessed_date, ..old_self.secrets()[name@] }));
        }
        result
    }

    /// Adds a version with a new value (id: the token, else a fresh UUID) and
    /// the given stages (`AWSCURRENT` by default). Taking `AWSCURRENT` moves the
    /// old current version to `AWSPREVIOUS`. Answers the ARN, the version id
    /// and the stages.
    pub fn put_secret_value(
        &mut self,
        secret_id: &str,
        secret_string: Option<String>,
        secret_binary: Option<String>,
        client_request_token: Option<String>,
        version_stages_opt: Option<Vec<String>>,
    ) -> (r: Result<(String, String, Vec<String>), SmError>)
        requires
            old(self).wf(),
        ensures
            final(self).wf(),
            final(self).account() == old(self).account(),
            final(self).home_region() == old(self).home_region(),
            final(self).arns() == old(self).arns(),
            match old(self).resolve(secret_id@) {
                None => r matches Err(e) && e.kind == SmErrorKind::ResourceNotFound
                    && e.message@ == "Secret "@ + secret_id@ + " not found."@ && final(self).secrets() == old(self).secrets(),
                Some(n) => r matches Ok((arn, vid, stages)) && {
                    let s = old(self).secrets()[n];
                    let ns = final(self).secrets()[n];
                    let takes = views(stages@).contains(current_stage());
                    &&& arn@ == s.arn
                    &&& (match client_request_token { Some(t) => vid@ == t@, None => vid@.len() == 36 })
                    &&& views(stages@) == match version_stages_opt { Some(v) => views(v@), None => seq![current_stage()] }
                    &&& final(self).secrets() == old(self).secrets().insert(n, ns)
                    &&& ns.versions == put_versions(s, VersionView {
                        version_id: vid@,
                        secret_string: opt_text(secret_string),
                        secret_binary: opt_text(secret_binary),
                        version_stages: views(stages@),
                        created_date: ns.versions[vid@].created_date,
                    }, takes, false)
                    &&& ns.current_version_id == if takes { Some(vid@) } else { s.current_version_id }
                    &&& ns.last_changed_date == Some(ns.versions[vid@].created_date)
                    &&& ns == (SecretView { versions: ns.versions, current_version_id: ns.current_version_id,
                        last_changed_date: ns.last_changed_date, ..s })
                },
            },
    {
        let ghost old_self = *old(self);
        let name = match self.find_secret(secret_id) {
            Some(n) => n,
            None => {
                let mut m = String::new();
                append(&mut m, "Secret ");
                append(&mut m, secret_id);
                append(&mut m, " not found.");
                return Err(SmError { kind: SmErrorKind::ResourceNotFound, message: m });
            },
        };
        let mut sec = self.secrets.remove(name.as_str()).unwrap();
        let ghost mid = self.secrets;
        let ghost s0 = sec;
        let now = now_seconds();
        let new_vid = match client_request_token { Some(t) => t, None => new_uuid() };
        let stages = match version_stages_opt {
            Some(v) => v,
            None => {
                let v: Vec<String> = vec!["AWSCURRENT".to_owned()];
                assert(views(v@) =~= seq![current_stage()]);
                v
            },
        };
        let takes = holds(&stages, "AWSCURRENT");
        let ver = SecretVersion {
            version_id: new_vid.clone(),
            secret_string,
            secret_binary,
            version_stages: copy_strings(&stages),
            created_date: now,
        };
        add_version(&mut sec, ver, takes, false);
        if takes {
            sec.current_version_id = Some(new_vid.clone());
        }
        sec.last_changed_date = Some(now);
        let arn = sec.arn.clone();
        let ghost gs = sec;
        self.secrets.insert(name, sec);
        proof {
            Self::lemma_put_back(old_self, mid, name@, gs, *self);
        }
        Ok((arn, new_vid, stages))
    }

    /// Changes the description and key (those given) and, when a value is
    /// given, adds it as the new current version (id: the token, else a fresh
    /// UUID), the old current version going to `AWSPREVIOUS`. Answers the ARN.
    #[verifier::rlimit(40)]
    pub fn update_secret(
        &mut self,
        secret_id: &str,
        description: Option<String>,
        kms_key_id: Option<String>,
        secret_string: Option<String>,
        secret_binary: Option<String>,
        client_request_token: Option<String>,
    ) -> (r: Result<String, SmError>)
        requires
            old(self).wf(),
        ensures
            final(self).wf(),
            final(self).account() == old(self).account(),
            final(self).home_region() == old(self).home_region(),
            final(self).arns() == old(self).arns(),
            match old(self).resolve(secret_id@) {
                None => r matches Err(e) && e.kind == SmErrorKind::ResourceNotFound
                    && e.message@ == "Secret "@ + secret_id@ + " not found."@ && final(self).secrets() == old(self).secrets(),
                Some(n) => r matches Ok(arn) && {
                    let s = old(self).secrets()[n];
                    let ns = final(self).secrets()[n];
                    let s1 = SecretView {
                        description: match description { Some(d) => Some(d@), None => s.description },
                        kms_key_id: match kms_key_id { Some(k) => Some(k@), None => s.kms_key_id },
                        ..s
                    };
                    &&& arn@ == s.arn
                    &&& final(self).secrets() == old(self).secrets().insert(n, ns)
                    &&& if secret_string is Some || secret_binary is Some {
                        ns.current_version_id is Some && {
                            let vid = ns.current_version_id->0;
                            &&& (match client_request_token { Some(t) => vid == t@, None => vid.len() == 36 })
                            &&& ns == (SecretView {
                                versions: put_versions(s1, VersionView {
                                    version_id: vid,
                                    secret_string: opt_text(secret_string),
                                    secret_binary: opt_text(secret_binary),
                                    version_stages: seq![current_stage()],
                                    created_date: ns.versions[vid].created_date,
                                }, true, true),
                                current_version_id: Some(vid),
                                last_changed_date: Some(ns.versions[vid].created_date),
                                ..s1
                            })
                        }
                    } else {
                        ns == s1
                    }
                },
            },
    {
        let ghost old_self = *old(self);
        let name = match self.find_secret(secret_id) {
            Some(n) => n,
            None => {
                let mut m = String::new();
                append(&mut m, "Secret ");
                append(&mut m, secret_id);
                append(&mut m, " not found.");
                return Err(SmError { kind: SmErrorKind::ResourceNotFound, message: m });
            },
        };
        let mut sec = self.secrets.remove(name.as_str()).unwrap();
        let ghost mid = self.secrets;
        match description {
            Some(d) => { sec.description = Some(d); },
            None => {},
        }
        match kms_key_id {
            Some(k) => { sec.kms_key_id = Some(k); },
            None => {},
        }
        let ghost s1 = sec@;
        let ghost mut wit: Seq<char> = Seq::empty();
        let ghost sstr = opt_text(secret_string);
        let ghost sbin = opt_text(secret_binary);
        if secret_string.is_some() || secret_binary.is_some() {
            let new_vid = match &client_request_token { Some(t) => t.clone(), None => new_uuid() };
            let now = now_seconds();
            let stages: Vec<String> = vec!["AWSCURRENT".to_owned()];
            assert(views(stages@) =~= seq![current_stage()]);
            let ver = SecretVersion {
                version_id: new_vid.clone(),
                secret_string,
                secret_binary,
                version_stages: stages,
                created_date: now,
            };
            add_version(&mut sec, ver, true, true);
            sec.current_version_id = Some(new_vid.clone());
            sec.last_changed_date = Some(now);
            assert(sec@.versions[new_vid@].created_date == now);
            proof { wit = new_vid@; }
            assert(sec@ == (SecretView {
                versions: put_versions(s1, VersionView {
                    version_id: wit,
                    secret_string: sstr,
                    secret_binary: sbin,
                    version_stages: seq![current_stage()],
                    created_date: sec@.versions[wit].created_date,
                }, true, true),
                current_version_id: Some(wit),
                last_changed_date: Some(sec@.versions[wit].created_date),
                ..s1
            }));
        }
        let arn = sec.arn.clone();
        let ghost gs = sec;
        self.secrets.insert(name, sec);
        proof {
            Self::lemma_put_back(old_self, mid, name@, gs, *self);
            let ns = self.secrets()[name@];
            assert(ns == gs@);
            if sstr is Some || sbin is Some {
                assert((match client_request_token { Some(t) => wit == t@, None => wit.len() == 36 }));
                assert(ns == (SecretView {
                    versions: put_versions(s1, VersionView {
                        version_id: wit,
                        secret_string: sstr,
                        secret_binary: sbin,
                        version_stages: seq![current_stage()],
                        created_date: ns.versions[wit].created_date,
                    }, true, true),
                    current_version_id: Some(wit),
                    last_changed_date: Some(ns.versions[wit].created_date),
                    ..s1
                }));
            }
        }
        Ok(arn)
    }

    /// Deletes a secret: at once when forced, else by marking it for deletion
    /// in 30 days. Answers its ARN, its name and the deletion date (none when
    /// forced).
    pub fn delete_secret(&mut self, secret_id: &str, force_delete: bool) -> (r: Result<(String, String, Option<i64>), SmError>)
        requires
            old(self).wf(),
        ensures
            final(self).wf(),
            final(self).account() == old(self).account(),
            final(self).home_region() == old(self).home_region(),
            match old(self).resolve(secret_id@) {
                None => r matches Err(e) && e.kind == SmErrorKind::ResourceNotFound
                    && e.message@ == "Secret "@ + secret_id@ + " not found."@ && final(self).secrets() == old(self).secrets()
                    && final(self).arns() == old(self).arns(),
                Some(n) => r matches Ok((arn, name, date)) && {
                    let s = old(self).secrets()[n];
                    &&& arn@ == s.arn && name@ == n
                    &&& if force_delete {
                        &&& date is None
                        &&& final(self).secrets() == old(self).secrets().remove(n)
                        &&& final(self).arns() == old(self).arns().remove(s.arn)
                    } else {
                        &&& final(self).arns() == old(self).arns()
                        &&& final(self).secrets().contains_key(n)
                        &&& final(self).secrets() == old(self).secrets().insert(n, SecretView {
                            deleted_date: final(self).secrets()[n].deleted_date,
                            ..s
                        })
                        &&& final(self).secrets()[n].deleted_date matches Some(d) && date == Some(
                            if d <= i64::MAX - 2592000 { (d + 2592000) as i64 } else { i64::MAX })
                    }
                },
            },
    {
        let ghost old_self = *old(self);
        let name = match self.find_secret(secret_id) {
            Some(n) => n,
            None => {
                let mut m = String::new();
                append(&mut m, "Secret ");
                append(&mut m, secret_id);
                append(&mut m, " not found.");
                return Err(SmError { kind: SmErrorKind::ResourceNotFound, message: m });
            },
        };
        let mut sec = self.secrets.remove(name.as_str()).unwrap();
        let ghost mid = self.secrets;
        let arn = sec.arn.clone();
        if force_delete {
            let _ = self.by_arn.remove(arn.as_str());
            proof {
                lemma_map_values_remove(old_self.secrets@, name@, |s: Secret| s@);
                lemma_map_values_remove(old_self.by_arn@, arn@, |n: String| n@);
                assert forall|a: Seq<char>| #[trigger] self.by_arn@.contains_key(a) implies self.secrets@.contains_key(self.by_arn@[a]@)
                    && self.secrets@[self.by_arn@[a]@].arn@ == a by {
                    assert(old_self.by_arn@.contains_key(a));
                    assert(old_self.secrets@.contains_key(old_self.by_arn@[a]@));
                    if old_self.by_arn@[a]@ == name@ {
                        assert(a == arn@);
                    }
                }
            }
            return Ok((arn, name, None));
        }
        let now = now_seconds();
        sec.deleted_date = Some(now);
        let deletion_date: i64 = if now <= 9223372036854775807i64 - 2592000 { now + 2592000 } else { 9223372036854775807i64 };
        let ghost gs = sec;
        self.secrets.insert(name.clone(), sec);
        proof {
            Self::lemma_put_back(old_self, mid, name@, gs, *self);
        }
        Ok((arn, name, Some(deletion_date)))
    }

    /// A copy of a secret.
    pub fn describe_secret(&self, secret_id: &str) -> (r: Result<Secret, SmError>)
        requires
            self.wf(),
        ensures
            match self.resolve(secret_id@) {
                None => r matches Err(e) && e.kind == SmErrorKind::ResourceNotFound
                    && e.message@ == "Secret "@ + secret_id@ + " not found."@,
                Some(n) => r matches Ok(s) && s@ == self.secrets()[n] && s.versions.wf()
                    && s.versions.keys() == self.version_ids(n),
            },
    {
        let name = match self.find_secret(secret_id) {
            Some(n) => n,
            None => {
                let mut m = String::new();
                append(&mut m, "Secret ");
                append(&mut m, secret_id);
                append(&mut m, " not found.");
                return Err(SmError { kind: SmErrorKind::ResourceNotFound, message: m });
            },
        };
        let sec = self.secrets.get(name.as_str()).unwrap();
        let c = sec.copy();
        proof {
            assert(c.versions@.dom() =~= c.versions@.map_values(|v: SecretVersion| v@).dom());
            assert(sec.versions@.dom() =~= sec.versions@.map_values(|v: SecretVersion| v@).dom());
            lemma_table_keys_determined(c.versions, sec.versions);
        }
        Ok(c)
    }

    /// Copies of the secrets not marked for deletion, in ascending name order.
    pub fn list_secrets(&self, max_results: Option<usize>) -> (r: Result<Vec<Secret>, SmError>)
        requires
            self.wf(),
        ensures
            r matches Ok(list) && list@.map_values(|s: Secret| s@) == live_secrets(self.names(), self.secrets()),
    {
        let n = self.secrets.len();
        proof { self.secrets.lemma_wf(); }
        let mut list: Vec<Secret> = Vec::new();
        let mut i: usize = 0;
        while i < n
            invariant
                self.wf(),
                n == self.names().len(),
                i <= n,
                forall|j: int| 0 <= j < n ==> #[trigger] self.secrets@.contains_key(self.names()[j])
                    && self.secrets@[self.names()[j]] == self.secrets.vals()[j],
                list@.map_values(|s: Secret| s@) == live_secrets(self.names().subrange(0, i as int), self.secrets()),
            decreases n - i,
        {
            let (k, sec) = self.secrets.entry(i);
            proof { self.secrets.lemma_wf(); }
            let ghost ks = self.names();
            assert(self.secrets@.contains_key(ks[i as int]));
            assert(ks.subrange(0, i + 1).drop_last() =~= ks.subrange(0, i as int));
            assert(self.secrets@[ks[i as int]] == *sec);
            let ghost before = list@;
            if sec.deleted_date.is_none() {
                list.push(sec.copy());
                assert(list@.map_values(|s: Secret| s@) =~= before.map_values(|s: Secret| s@).push(sec@));
            }
            i = i + 1;
        }
        assert(self.names().subrange(0, n as int) =~= self.names());
        Ok(list)
    }

    /// The version ids of a secret are keys of its versions.
    pub proof fn lemma_version_ids(&self, n: Seq<char>)
        requires
            self.wf(),
            self.secrets().contains_key(n),
        ensures
            forall|i: int| 0 <= i < self.version_ids(n).len() ==> #[trigger] self.secrets()[n].versions.contains_key(self.version_ids(n)[i]),
    {
        assert(self.secrets@.contains_key(n));
        self.secrets@[n].versions.lemma_wf();
    }

    /// An id leads to a stored secret, if to any.
    pub proof fn lemma_resolve(&self, id: Seq<char>)
        requires
            self.wf(),
        ensures
            self.resolve(id) matches Some(n) ==> self.secrets().contains_key(n),
    {
        if self.arns().contains_key(id) {
            assert(self.by_arn@.contains_key(id));
        }
    }

    /// Each secret is stored under its own name.
    pub proof fn lemma_stored_names(&self)
        requires
            self.wf(),
        ensures
            forall|n: Seq<char>| #[trigger] self.secrets().contains_key(n) ==> self.secrets()[n].name == n,
    {
        assert forall|n: Seq<char>| #[trigger] self.secrets().contains_key(n) implies self.secrets()[n].name == n by {
            assert(self.secrets@.contains_key(n));
        }
    }

}

} // verus!
